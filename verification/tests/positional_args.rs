use argument_parser::DataType;
use argument_parser::GrammarError;
use argument_parser::Parser;
use argument_parser::PositionalArgument;
use argument_parser::ROOT;

struct Input<'a> {
    destination: &'a str,
    data_type: DataType,
    is_required: Option<bool>,
    defaults: Option<&'a [&'a str]>,
}

fn create_parser_with_inputs(inputs: &[Input]) -> Result<Parser, GrammarError> {
    let mut parser = Parser::new();
    for input in inputs {
        let mut positional = PositionalArgument::new(input.destination, input.data_type);
        if let Some(is_required) = input.is_required {
            positional = positional.is_required(is_required)?;
        }
        if let Some(defaults) = &input.defaults {
            let defaults: Vec<String> = defaults.iter().map(|value| value.to_string()).collect();
            positional = positional.defaults(defaults)?;
        }
        parser.add_positional(ROOT, positional)?;
    }
    Ok(parser)
}

#[test]
fn test_unspecified_requirement() {
    let inputs: [Input; 5] = [
        Input {
            destination: "pos_1",
            data_type: DataType::Int32(false),
            is_required: None,
            defaults: None,
        },
        Input {
            destination: "pos_2",
            data_type: DataType::Float32(false),
            is_required: None,
            defaults: None,
        },
        Input {
            destination: "pos_3",
            data_type: DataType::String(false),
            is_required: None,
            defaults: None,
        },
        Input {
            destination: "pos_4",
            data_type: DataType::Bool(false),
            is_required: None,
            defaults: None,
        },
        Input {
            destination: "pos_5",
            data_type: DataType::Path(false),
            is_required: None,
            defaults: None,
        },
    ];

    let result = create_parser_with_inputs(&inputs);
    assert!(result.is_ok());
    let parser = result.expect("just checked that it's Ok(_)");
    assert_eq!(parser.nodes[0].positionals.len(), inputs.len());
}

#[test]
fn specified_requirement() {
    let inputs: [Input; 5] = [
        Input {
            destination: "pos_1",
            data_type: DataType::Int32(false),
            is_required: Some(true),
            defaults: None,
        },
        Input {
            destination: "pos_2",
            data_type: DataType::Float32(false),
            is_required: Some(true),
            defaults: None,
        },
        Input {
            destination: "pos_3",
            data_type: DataType::String(false),
            is_required: Some(true),
            defaults: None,
        },
        Input {
            destination: "pos_4",
            data_type: DataType::Bool(false),
            is_required: Some(true),
            defaults: None,
        },
        Input {
            destination: "pos_5",
            data_type: DataType::Path(false),
            is_required: Some(true),
            defaults: None,
        },
    ];

    let result = create_parser_with_inputs(&inputs);
    assert!(result.is_ok());
    let parser = result.expect("just checked that it's Ok(_)");
    assert_eq!(parser.nodes[0].positionals.len(), inputs.len());
}

#[test]
fn last_optional() {
    let inputs: [Input; 2] = [
        Input {
            destination: "pos_1",
            data_type: DataType::Path(false),
            is_required: None,
            defaults: None,
        },
        Input {
            destination: "pos_2",
            data_type: DataType::Path(false),
            is_required: Some(false),
            defaults: None,
        },
    ];

    let result = create_parser_with_inputs(&inputs);
    assert!(result.is_ok());
    let parser = result.expect("just checked that it's Ok(_)");
    assert_eq!(parser.nodes[0].positionals.len(), inputs.len());
}

#[test]
fn last_default() {
    let inputs: [Input; 2] = [
        Input {
            destination: "pos_1",
            data_type: DataType::Path(false),
            is_required: None,
            defaults: None,
        },
        Input {
            destination: "pos_2",
            data_type: DataType::Path(false),
            is_required: None,
            defaults: Some(&["./README.md"]),
        },
    ];

    let result = create_parser_with_inputs(&inputs);
    assert!(result.is_ok());
    let parser = result.expect("just checked that it's Ok(_)");
    assert_eq!(parser.nodes[0].positionals.len(), inputs.len());
}

#[test]
fn last_array() {
    let inputs: [Input; 2] = [
        Input {
            destination: "pos_1",
            data_type: DataType::Path(false),
            is_required: None,
            defaults: None,
        },
        Input {
            destination: "pos_2",
            data_type: DataType::Path(true),
            is_required: None,
            defaults: None,
        },
    ];

    let result = create_parser_with_inputs(&inputs);
    assert!(result.is_ok());
    let parser = result.expect("just checked that it's Ok(_)");
    assert_eq!(parser.nodes[0].positionals.len(), inputs.len());
}

#[test]
fn test_duplicate_destination() {
    let inputs: [Input; 2] = [
        Input {
            destination: "same_destination",
            data_type: DataType::Path(false),
            is_required: None,
            defaults: None,
        },
        Input {
            destination: "same_destination",
            data_type: DataType::Path(false),
            is_required: None,
            defaults: None,
        },
    ];

    let result = create_parser_with_inputs(&inputs);
    assert!(result.is_err());
}

#[test]
fn non_last_optional() {
    let inputs: [Input; 2] = [
        Input {
            destination: "badly_placed_optional",
            data_type: DataType::String(false),
            is_required: Some(false),
            defaults: None,
        },
        Input {
            destination: "other_positional",
            data_type: DataType::String(false),
            is_required: None,
            defaults: None,
        },
    ];

    let result = create_parser_with_inputs(&inputs);
    assert!(result.is_err());
}

#[test]
fn non_last_default() {
    let inputs: [Input; 2] = [
        Input {
            destination: "badly_placed_optional",
            data_type: DataType::Bool(false),
            is_required: None,
            defaults: Some(&["true"]),
        },
        Input {
            destination: "other_positional",
            data_type: DataType::Bool(false),
            is_required: None,
            defaults: None,
        },
    ];

    let result = create_parser_with_inputs(&inputs);
    assert!(result.is_err());
}

#[test]
fn non_last_array() {
    let inputs: [Input; 2] = [
        Input {
            destination: "badly_placed_array",
            data_type: DataType::String(true),
            is_required: None,
            defaults: None,
        },
        Input {
            destination: "other_positional",
            data_type: DataType::String(false),
            is_required: None,
            defaults: None,
        },
    ];

    let result = create_parser_with_inputs(&inputs);
    assert!(result.is_err());
}

#[test]
fn test_required_and_default() {
    let inputs: [Input; 1] = [Input {
        destination: "conflicting_requirement_and_default",
        data_type: DataType::Float32(false),
        is_required: Some(true),
        defaults: Some(&["420.69"]),
    }];

    let result = create_parser_with_inputs(&inputs);
    assert!(result.is_err());
}

#[test]
fn test_too_many_defaults() {
    let inputs: [Input; 1] = [Input {
        destination: "non_array_with_many_defaults",
        data_type: DataType::Int32(false),
        is_required: None,
        defaults: Some(&["42", "64"]),
    }];

    let result = create_parser_with_inputs(&inputs);
    assert!(result.is_err());
}
