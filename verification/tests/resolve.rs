use argument_parser::DataType;
use argument_parser::OptionArgument;
use argument_parser::ParseResult;
use argument_parser::ParsedArgument;
use argument_parser::Parser;
use argument_parser::ROOT;

fn tokens(raw: &[&str]) -> Vec<String> {
    raw.iter().map(|t| t.to_string()).collect()
}

#[test]
fn scenario_required_string_positional() {
    let mut parser = Parser::new();
    parser.positional(ROOT, "name", DataType::String(false)).unwrap();

    let result = parser.parse(tokens(&["alice"]));

    assert!(result.errors().is_empty());
    assert_eq!(
        result.get_single("name"),
        Some(&ParsedArgument::String("alice".to_string()))
    );
}

#[test]
fn scenario_bool_flag_toggles() {
    let mut parser = Parser::new();
    let flag = OptionArgument::new("--flag", "flag", DataType::Bool(false))
        .unwrap()
        .default_value("false")
        .unwrap();
    parser.add_option(ROOT, flag).unwrap();

    let supplied = parser.parse(tokens(&["--flag"]));
    assert!(supplied.errors().is_empty());
    assert_eq!(supplied.get_single("flag"), Some(&ParsedArgument::Bool(true)));

    let omitted = parser.parse(tokens(&[]));
    assert!(omitted.errors().is_empty());
    assert_eq!(omitted.get_single("flag"), Some(&ParsedArgument::Bool(false)));
}

#[test]
fn scenario_missing_required_option() {
    let mut parser = Parser::new();
    let num = OptionArgument::new("-n, --num", "num", DataType::Int32(false))
        .unwrap()
        .is_required(true)
        .unwrap();
    parser.add_option(ROOT, num).unwrap();

    let result = parser.parse(tokens(&[]));

    assert_eq!(result.errors().len(), 1);
    assert_eq!(result.errors()[0], "no value provided for option 'num'");
    assert!(!result.has_single("num"));
    assert!(!result.has_array("num"));
}

#[test]
fn scenario_array_positional_collects_all() {
    let mut parser = Parser::new();
    parser.positional(ROOT, "items", DataType::String(true)).unwrap();

    let result = parser.parse(tokens(&["a", "b", "c"]));

    assert!(result.errors().is_empty());
    assert_eq!(
        result.get_array("items"),
        Some(&vec![
            ParsedArgument::String("a".to_string()),
            ParsedArgument::String("b".to_string()),
            ParsedArgument::String("c".to_string()),
        ])
    );
}

#[test]
fn scenario_sub_command_selection() {
    let mut parser = Parser::new();
    let add = parser.sub_parser(ROOT, "add").unwrap();
    let remove = parser.sub_parser(ROOT, "remove").unwrap();
    parser.positional(add, "value", DataType::String(false)).unwrap();
    parser.positional(remove, "target", DataType::String(false)).unwrap();

    let result = parser.parse(tokens(&["add", "x"]));

    assert!(result.errors().is_empty());
    let child = result.get_child().expect("a sub-command was selected");
    assert_eq!(child.name, "add");
    assert!(child.result.errors().is_empty());
    assert_eq!(
        child.result.get_single("value"),
        Some(&ParsedArgument::String("x".to_string()))
    );
}

#[test]
fn default_round_trip() {
    let mut parser = Parser::new();
    let level = OptionArgument::new("-l, --level", "level", DataType::Int32(false))
        .unwrap()
        .default_value("7")
        .unwrap();
    parser.add_option(ROOT, level).unwrap();

    let result = parser.parse(tokens(&[]));

    assert!(result.errors().is_empty());
    assert_eq!(result.get_single("level"), Some(&ParsedArgument::Int32(7)));
}

fn same_observables(a: &ParseResult, b: &ParseResult, keys: &[&str]) -> bool {
    if a.errors() != b.errors() {
        return false;
    }
    for key in keys {
        if a.get_single(key) != b.get_single(key) {
            return false;
        }
        if a.get_array(key) != b.get_array(key) {
            return false;
        }
    }
    true
}

#[test]
fn parse_is_idempotent() {
    let mut parser = Parser::new();
    parser.positional(ROOT, "input", DataType::Path(false)).unwrap();
    parser.positional(ROOT, "extras", DataType::Int32(true)).unwrap();
    let verbose = OptionArgument::new("-v, --verbose", "verbose", DataType::Bool(false))
        .unwrap()
        .default_value("false")
        .unwrap();
    parser.add_option(ROOT, verbose).unwrap();

    let args = &["--verbose", "in.txt", "1", "oops", "2"];
    let first = parser.parse(tokens(args));
    let second = parser.parse(tokens(args));

    assert!(same_observables(&first, &second, &["input", "extras", "verbose"]));
}

#[test]
fn unrecognized_option_is_reported_and_skipped() {
    let mut parser = Parser::new();
    parser.positional(ROOT, "name", DataType::String(false)).unwrap();

    let result = parser.parse(tokens(&["--nope", "alice"]));

    assert_eq!(
        result.errors(),
        &vec!["Unrecognized option '--nope'. (have you already used it?)".to_string()]
    );
    assert_eq!(
        result.get_single("name"),
        Some(&ParsedArgument::String("alice".to_string()))
    );
}

#[test]
fn excess_positional_is_reported() {
    let mut parser = Parser::new();
    parser.positional(ROOT, "only", DataType::String(false)).unwrap();

    let result = parser.parse(tokens(&["one", "two"]));

    assert_eq!(
        result.errors(),
        &vec![
            "Unrecognized positional 'two'. You have already given all positionals a value."
                .to_string()
        ]
    );
}

#[test]
fn missing_option_value_stops_the_scan() {
    let mut parser = Parser::new();
    parser
        .option(ROOT, "-n, --num", "num", DataType::Int32(false))
        .unwrap();
    parser.positional(ROOT, "rest", DataType::String(false)).unwrap();

    let result = parser.parse(tokens(&["--num"]));

    assert_eq!(
        result.errors(),
        &vec![
            "No value provided for option '-n, --num'.".to_string(),
            "no value provided for positional 'rest'".to_string(),
        ]
    );
}

#[test]
fn invalid_value_is_reported() {
    let mut parser = Parser::new();
    parser
        .option(ROOT, "-n, --num", "num", DataType::Int32(false))
        .unwrap();

    let result = parser.parse(tokens(&["--num", "seven"]));

    assert_eq!(
        result.errors(),
        &vec!["Invalid value 'seven' for option '-n, --num'.".to_string()]
    );
    assert!(!result.has("num"));
}

#[test]
fn invalid_positional_value_is_reported() {
    let mut parser = Parser::new();
    parser.positional(ROOT, "count", DataType::Int32(false)).unwrap();

    let result = parser.parse(tokens(&["many"]));

    assert_eq!(
        result.errors(),
        &vec!["Invalid value 'many' for positional 'count'.".to_string()]
    );
}

#[test]
fn unknown_sub_command_is_reported() {
    let mut parser = Parser::new();
    parser.sub_parser(ROOT, "add").unwrap();

    let result = parser.parse(tokens(&["subtract"]));

    assert_eq!(
        result.errors(),
        &vec![
            "sub-parser 'subtract' doesn't exist".to_string(),
            "no sub-parser chosen".to_string(),
        ]
    );
}

#[test]
fn missing_sub_command_is_reported() {
    let mut parser = Parser::new();
    parser.sub_parser(ROOT, "add").unwrap();

    let result = parser.parse(tokens(&[]));

    assert_eq!(result.errors(), &vec!["no sub-parser chosen".to_string()]);
}

#[test]
fn array_option_collects_repeated_uses() {
    let mut parser = Parser::new();
    parser
        .option(ROOT, "-i, --include", "includes", DataType::Path(true))
        .unwrap();

    let result = parser.parse(tokens(&["-i", "a.h", "--include", "b.h"]));

    assert!(result.errors().is_empty());
    assert_eq!(
        result.get_array("includes"),
        Some(&vec![
            ParsedArgument::Path("a.h".to_string()),
            ParsedArgument::Path("b.h".to_string()),
        ])
    );
}

#[test]
fn array_positional_defaults_apply_when_unsupplied() {
    let mut parser = Parser::new();
    let items = argument_parser::PositionalArgument::new("items", DataType::Int32(true))
        .defaults(vec!["1".to_string(), "2".to_string()])
        .unwrap();
    parser.add_positional(ROOT, items).unwrap();

    let unsupplied = parser.parse(tokens(&[]));
    assert!(unsupplied.errors().is_empty());
    assert_eq!(
        unsupplied.get_array("items"),
        Some(&vec![ParsedArgument::Int32(1), ParsedArgument::Int32(2)])
    );

    let supplied = parser.parse(tokens(&["9"]));
    assert!(supplied.errors().is_empty());
    assert_eq!(supplied.get_array("items"), Some(&vec![ParsedArgument::Int32(9)]));
}

#[test]
fn optional_positional_stays_unset() {
    let mut parser = Parser::new();
    let extra = argument_parser::PositionalArgument::new("extra", DataType::String(false))
        .is_required(false)
        .unwrap();
    parser.add_positional(ROOT, extra).unwrap();

    let result = parser.parse(tokens(&[]));

    assert!(result.errors().is_empty());
    assert!(!result.has("extra"));
}

#[test]
fn float_values_keep_their_literal() {
    let mut parser = Parser::new();
    parser.option(ROOT, "-r, --ratio", "ratio", DataType::Float32(false)).unwrap();

    let result = parser.parse(tokens(&["--ratio", "1.5"]));

    assert!(result.errors().is_empty());
    let value = result.get_single("ratio").expect("the ratio was supplied");
    match value {
        ParsedArgument::Float32(literal) => {
            assert_eq!(literal, "1.5");
            assert_eq!(literal.parse::<f32>().unwrap(), 1.5f32);
        },
        other => panic!("expected a float literal, got {:?}", other),
    }
}

#[test]
fn bool_option_without_default_toggles_to_true() {
    let mut parser = Parser::new();
    parser.option(ROOT, "-x", "x_set", DataType::Bool(false)).unwrap();

    let supplied = parser.parse(tokens(&["-x"]));
    assert!(supplied.errors().is_empty());
    assert_eq!(supplied.get_single("x_set"), Some(&ParsedArgument::Bool(true)));

    // Unset requiredness without defaults means required.
    let omitted = parser.parse(tokens(&[]));
    assert_eq!(omitted.errors(), &vec!["no value provided for option 'x_set'".to_string()]);
}

#[test]
fn empty_grammar_accepts_empty_input() {
    let parser = Parser::new();
    let result = parser.parse(tokens(&[]));
    assert!(result.errors().is_empty());
    assert!(result.get_child().is_none());
}

#[test]
fn selected_sub_command_owns_the_remaining_tokens() {
    let mut parser = Parser::new();
    let add = parser.sub_parser(ROOT, "add").unwrap();
    parser.positional(add, "value", DataType::String(false)).unwrap();

    let result = parser.parse(tokens(&["add", "x", "y"]));

    // The excess token is the child's problem, not the parent's.
    assert!(result.errors().is_empty());
    let child = result.get_child().expect("a sub-command was selected");
    assert_eq!(
        child.result.errors(),
        &vec![
            "Unrecognized positional 'y'. You have already given all positionals a value."
                .to_string()
        ]
    );
    assert_eq!(
        child.result.get_single("value"),
        Some(&ParsedArgument::String("x".to_string()))
    );
}

#[test]
fn array_bool_options_take_explicit_values() {
    let mut parser = Parser::new();
    parser.option(ROOT, "-b, --bit", "bits", DataType::Bool(true)).unwrap();

    let result = parser.parse(tokens(&["-b", "true", "--bit", "false"]));

    assert!(result.errors().is_empty());
    assert_eq!(
        result.get_array("bits"),
        Some(&vec![ParsedArgument::Bool(true), ParsedArgument::Bool(false)])
    );
}

#[test]
fn short_and_long_names_match_their_dash_count() {
    let mut parser = Parser::new();
    parser
        .option(ROOT, "-n, --num", "num", DataType::Int32(false))
        .unwrap();

    let short_as_long = parser.parse(tokens(&["--n", "3"]));
    assert_eq!(
        short_as_long.errors(),
        &vec![
            "Unrecognized option '--n'. (have you already used it?)".to_string(),
            "Unrecognized positional '3'. You have already given all positionals a value."
                .to_string(),
            "no value provided for option 'num'".to_string(),
        ]
    );
    assert!(!short_as_long.has("num"));

    let long_as_short = parser.parse(tokens(&["-num", "3"]));
    assert_eq!(
        long_as_short.errors()[0],
        "Unrecognized option '-num'. (have you already used it?)".to_string()
    );

    let matched = parser.parse(tokens(&["-n", "3"]));
    assert!(matched.errors().is_empty());
    assert_eq!(matched.get_single("num"), Some(&ParsedArgument::Int32(3)));
}
