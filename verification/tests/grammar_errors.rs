use argument_parser::DataType;
use argument_parser::GrammarError;
use argument_parser::OptionArgument;
use argument_parser::Parser;
use argument_parser::PositionalArgument;
use argument_parser::ROOT;
use argument_parser::UnparsedArgumentBuilder;
use argument_parser::validate_long;
use argument_parser::validate_short;

#[test]
fn extracted_names_land_in_their_fields() {
    let both = OptionArgument::new("-v, --verbose", "verbosity", DataType::Bool(false)).unwrap();
    assert_eq!(both.short_name.as_deref(), Some("v"));
    assert_eq!(both.long_name.as_deref(), Some("verbose"));

    let short = OptionArgument::new("-x", "x_marker", DataType::Int32(false)).unwrap();
    assert_eq!(short.short_name.as_deref(), Some("x"));
    assert_eq!(short.long_name, None);

    let long = OptionArgument::new("--dry-run", "dry_run", DataType::Bool(false)).unwrap();
    assert_eq!(long.short_name, None);
    assert_eq!(long.long_name.as_deref(), Some("dry-run"));

    let spaced = OptionArgument::new("-o , --output", "output", DataType::Path(false)).unwrap();
    assert_eq!(spaced.short_name.as_deref(), Some("o"));
    assert_eq!(spaced.long_name.as_deref(), Some("output"));
}

#[test]
fn malformed_names_fail_with_the_naming_error() {
    for names in ["", "-", "--", "-ab", "---x", "---x", "x", "-x,", "-x --y", "--x y"] {
        assert_eq!(
            OptionArgument::new(names, "dest", DataType::Int32(false)).unwrap_err(),
            GrammarError::MalformedNames,
            "accepted {:?}",
            names
        );
    }
}

#[test]
fn duplicate_destination_across_the_tree() {
    let mut parser = Parser::new();
    parser.positional(ROOT, "shared", DataType::Int32(false)).unwrap();
    let child = parser.sub_parser(ROOT, "work").unwrap();
    // An ancestor owns the destination.
    assert_eq!(
        parser.positional(child, "shared", DataType::Int32(false)).unwrap_err(),
        GrammarError::DuplicateDestination
    );
    parser.positional(child, "local", DataType::Int32(false)).unwrap();
    // A descendant owns the destination.
    assert_eq!(
        parser.option(ROOT, "-l", "local", DataType::Int32(false)).unwrap_err(),
        GrammarError::DuplicateDestination
    );
    // A cousin's destination does not conflict.
    let other = parser.sub_parser(ROOT, "other").unwrap();
    parser.positional(other, "local", DataType::Int32(false)).unwrap();
}

#[test]
fn occupied_names_are_refused() {
    let mut parser = Parser::new();
    parser.option(ROOT, "-a, --alpha", "alpha", DataType::Int32(false)).unwrap();
    assert_eq!(
        parser.option(ROOT, "-a", "a_again", DataType::Int32(false)).unwrap_err(),
        GrammarError::OccupiedShortName
    );
    assert_eq!(
        parser.option(ROOT, "--alpha", "alpha_again", DataType::Int32(false)).unwrap_err(),
        GrammarError::OccupiedLongName
    );
}

#[test]
fn required_and_default_conflict_both_ways() {
    let required = OptionArgument::new("--a", "a", DataType::Int32(false))
        .unwrap()
        .is_required(true)
        .unwrap();
    assert_eq!(required.default_value("3").unwrap_err(), GrammarError::RequiredAndDefault);

    let defaulted = OptionArgument::new("--b", "b", DataType::Int32(false))
        .unwrap()
        .default_value("3")
        .unwrap();
    assert_eq!(defaulted.is_required(true).unwrap_err(), GrammarError::RequiredAndDefault);
}

#[test]
fn scalar_options_take_one_default_at_most() {
    let scalar = OptionArgument::new("--a", "a", DataType::Int32(false)).unwrap();
    assert_eq!(
        scalar
            .default_values(vec!["1".to_string(), "2".to_string()])
            .unwrap_err(),
        GrammarError::TooManyDefaults
    );

    let array = OptionArgument::new("--b", "b", DataType::Int32(true)).unwrap();
    assert!(array.default_values(vec!["1".to_string(), "2".to_string()]).is_ok());
}

#[test]
fn defaults_are_codec_checked_eagerly() {
    let option = OptionArgument::new("--a", "a", DataType::Int32(false)).unwrap();
    assert_eq!(option.default_value("seven").unwrap_err(), GrammarError::InvalidDefault);

    let positional = PositionalArgument::new("b", DataType::Bool(false));
    assert_eq!(
        positional.defaults(vec!["yes".to_string()]).unwrap_err(),
        GrammarError::InvalidDefault
    );
}

#[test]
fn misplaced_positional_is_refused() {
    let mut parser = Parser::new();
    let array = PositionalArgument::new("items", DataType::String(true));
    parser.add_positional(ROOT, array).unwrap();
    assert_eq!(
        parser.positional(ROOT, "late", DataType::String(false)).unwrap_err(),
        GrammarError::MisplacedPositional
    );
}

#[test]
fn sub_commands_and_special_positionals_exclude_each_other() {
    let mut parser = Parser::new();
    let optional = PositionalArgument::new("extra", DataType::String(false))
        .is_required(false)
        .unwrap();
    parser.add_positional(ROOT, optional).unwrap();
    assert_eq!(
        parser.sub_parser(ROOT, "work").unwrap_err(),
        GrammarError::SubCommandConflict
    );

    let mut parser = Parser::new();
    parser.sub_parser(ROOT, "work").unwrap();
    let array = PositionalArgument::new("items", DataType::String(true));
    assert_eq!(
        parser.add_positional(ROOT, array).unwrap_err(),
        GrammarError::SubCommandConflict
    );
    // A plain positional may still be added.
    parser.positional(ROOT, "plain", DataType::String(false)).unwrap();
}

#[test]
fn sub_command_names_are_nonempty_and_unique() {
    let mut parser = Parser::new();
    assert_eq!(parser.sub_parser(ROOT, "").unwrap_err(), GrammarError::EmptySubCommandName);
    parser.sub_parser(ROOT, "work").unwrap();
    assert_eq!(
        parser.sub_parser(ROOT, "work").unwrap_err(),
        GrammarError::OccupiedSubCommandName
    );
}

#[test]
fn unknown_node_handles_are_refused() {
    let mut parser = Parser::new();
    assert_eq!(
        parser.positional(7, "x", DataType::Int32(false)).unwrap_err(),
        GrammarError::UnknownNode
    );
}

#[test]
fn flags_need_a_name_and_valid_names() {
    let mut parser = Parser::new();
    assert_eq!(
        parser.add_flag(ROOT, "quiet", None, None, false).unwrap_err(),
        GrammarError::MissingNames
    );
    assert_eq!(
        parser.add_flag(ROOT, "quiet", Some("qq"), None, false).unwrap_err(),
        GrammarError::MalformedNames
    );
    assert_eq!(
        parser.add_flag(ROOT, "quiet", None, Some("-bad"), false).unwrap_err(),
        GrammarError::MalformedNames
    );
    parser.add_flag(ROOT, "quiet", Some("q"), Some("quiet"), false).unwrap();
}

#[test]
fn flags_toggle_their_default() {
    let mut parser = Parser::new();
    parser.add_flag(ROOT, "verbose", Some("v"), Some("verbose"), false).unwrap();
    parser.add_flag(ROOT, "color", None, Some("color"), true).unwrap();

    let result = parser.parse(vec!["--verbose".to_string(), "--color".to_string()]);
    assert!(result.errors().is_empty());
    assert_eq!(
        result.get_single("verbose"),
        Some(&argument_parser::ParsedArgument::Bool(true))
    );
    assert_eq!(
        result.get_single("color"),
        Some(&argument_parser::ParsedArgument::Bool(false))
    );
}

#[test]
fn builder_routes_by_names() {
    let mut parser = Parser::new();
    UnparsedArgumentBuilder::new("input", DataType::Path(false))
        .description("the file to read")
        .build(&mut parser, ROOT)
        .unwrap();
    UnparsedArgumentBuilder::new("level", DataType::Int32(false))
        .short_name("l")
        .long_name("level")
        .default("3")
        .build(&mut parser, ROOT)
        .unwrap();
    assert_eq!(parser.nodes[0].positionals.len(), 1);
    assert_eq!(parser.nodes[0].options.len(), 1);
    assert_eq!(parser.nodes[0].options[0].short_name.as_deref(), Some("l"));
}

#[test]
fn builder_positionals_are_never_optional_or_defaulted() {
    let mut parser = Parser::new();
    assert_eq!(
        UnparsedArgumentBuilder::new("x", DataType::Int32(false))
            .required(false)
            .build(&mut parser, ROOT)
            .unwrap_err(),
        GrammarError::OptionalPositional
    );
    assert_eq!(
        UnparsedArgumentBuilder::new("x", DataType::Int32(false))
            .default("3")
            .build(&mut parser, ROOT)
            .unwrap_err(),
        GrammarError::DefaultedPositional
    );
}

#[test]
fn builder_rejects_bad_options() {
    let mut parser = Parser::new();
    assert_eq!(
        UnparsedArgumentBuilder::new("x", DataType::Int32(false))
            .short_name("xy")
            .build(&mut parser, ROOT)
            .unwrap_err(),
        GrammarError::MalformedNames
    );
    assert_eq!(
        UnparsedArgumentBuilder::new("x", DataType::Int32(false))
            .long_name("level")
            .required(true)
            .default("3")
            .build(&mut parser, ROOT)
            .unwrap_err(),
        GrammarError::RequiredAndDefault
    );
    assert_eq!(
        UnparsedArgumentBuilder::new("x", DataType::Int32(false))
            .long_name("level")
            .default("three")
            .build(&mut parser, ROOT)
            .unwrap_err(),
        GrammarError::InvalidDefault
    );
}

#[test]
fn quick_name_sanity_checks() {
    assert!(validate_short(None));
    assert!(validate_short(Some("v")));
    assert!(!validate_short(Some("-v")));
    assert!(validate_long(None));
    assert!(validate_long(Some("verbose")));
    assert!(validate_long(Some("-odd")));
    assert!(!validate_long(Some("--verbose")));
}

#[test]
fn grammar_errors_describe_themselves() {
    assert_eq!(
        GrammarError::DuplicateDestination.describe(),
        "the destination is already occupied"
    );
    assert_eq!(
        GrammarError::MalformedNames.describe(),
        "the option names were invalidly formatted"
    );
}
