use argument_parser::create_valid_args;
use argument_parser::create_valid_parser;

const VALID_POSITIONALS: [&str; 5] = ["pos_1", "pos_2", "pos_3", "pos_4", "pos_5"];
const VALID_REQUIRED_OPTIONS: [&str; 4] = ["req_1", "req_2", "req_3", "req_4"];
const VALID_OPTIONAL_OPTIONS: [&str; 4] = ["opt_1", "opt_2", "opt_3", "opt_4"];
const VALID_DEFAULT_OPTIONS: [&str; 5] = ["def_1", "def_2", "def_3", "def_4", "def_5"];

#[test]
fn valid_parser() {
    let parser = create_valid_parser();

    assert_eq!(parser.nodes[0].positionals.len(), VALID_POSITIONALS.len());
    assert_eq!(
        parser.nodes[0].options.len(),
        VALID_REQUIRED_OPTIONS.len() + VALID_OPTIONAL_OPTIONS.len() + VALID_DEFAULT_OPTIONS.len()
    );
}

#[test]
fn valid_arguments() {
    let parser = create_valid_parser();

    let args = create_valid_args();
    let parse_result = parser.parse(args);
    assert!(parse_result.errors().is_empty());

    for destination in VALID_POSITIONALS {
        assert!(parse_result.has(destination));
    }

    for destination in VALID_REQUIRED_OPTIONS {
        assert!(parse_result.has(destination));
    }

    for destination in VALID_OPTIONAL_OPTIONS {
        assert!(!parse_result.has(destination));
    }

    for destination in VALID_DEFAULT_OPTIONS {
        assert!(parse_result.has(destination));
    }
}
