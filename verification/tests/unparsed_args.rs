use argument_parser::DataType;
use argument_parser::Optionality;
use argument_parser::UnparsedArgument;
use argument_parser::invalid_value;
use argument_parser::no_value_provided;
use argument_parser::unrecognized_option;
use argument_parser::unrecognized_positional;

fn arg(
    destination: &str,
    data_type: DataType,
    short_name: Option<&str>,
    long_name: Option<&str>,
    optionality: Optionality,
) -> UnparsedArgument {
    UnparsedArgument {
        description: String::new(),
        destination: destination.to_string(),
        data_type,
        short_name: short_name.map(|s| s.to_string()),
        long_name: long_name.map(|l| l.to_string()),
        optionality,
    }
}

#[test]
fn names_render_by_their_dashes() {
    let positional = arg("input", DataType::Path(false), None, None, Optionality::Required);
    assert_eq!(positional.get_name(), "input");
    assert!(positional.is_positional());
    assert!(!positional.is_option());

    let short = arg("x_count", DataType::Int32(false), Some("x"), None, Optionality::Optional);
    assert_eq!(short.get_name(), "-x");
    assert!(short.is_option());

    let long = arg("dry_run", DataType::Bool(true), None, Some("dry-run"), Optionality::Optional);
    assert_eq!(long.get_name(), "--dry-run");

    let both = arg(
        "verbosity",
        DataType::Bool(false),
        Some("v"),
        Some("verbose"),
        Optionality::Default(vec!["false".to_string()]),
    );
    assert_eq!(both.get_name(), "-v, --verbose");
}

#[test]
fn flags_are_scalar_bool_options() {
    let flag = arg(
        "quiet",
        DataType::Bool(false),
        Some("q"),
        None,
        Optionality::Default(vec!["false".to_string()]),
    );
    assert!(flag.is_flag());

    let array_bool = arg("bits", DataType::Bool(true), Some("b"), None, Optionality::Optional);
    assert!(!array_bool.is_flag());

    let positional_bool = arg("flag", DataType::Bool(false), None, None, Optionality::Required);
    assert!(!positional_bool.is_flag());
}

#[test]
fn optionality_knows_its_defaults() {
    assert!(Optionality::Default(vec!["1".to_string()]).is_default());
    assert!(!Optionality::Required.is_default());
    assert!(!Optionality::Optional.is_default());
}

#[test]
fn error_messages_name_their_argument() {
    let option = arg(
        "num",
        DataType::Int32(false),
        Some("n"),
        Some("num"),
        Optionality::Required,
    );
    assert_eq!(no_value_provided(&option), "No value provided for option '-n, --num'.");
    assert_eq!(invalid_value(&option, "seven"), "Invalid value 'seven' for option '-n, --num'.");

    let positional = arg("count", DataType::Int32(false), None, None, Optionality::Required);
    assert_eq!(
        invalid_value(&positional, "many"),
        "Invalid value 'many' for positional 'count'."
    );

    assert_eq!(
        unrecognized_option("--nope"),
        "Unrecognized option '--nope'. (have you already used it?)"
    );
    assert_eq!(
        unrecognized_positional("stray"),
        "Unrecognized positional 'stray'. You have already given all positionals a value."
    );
}
