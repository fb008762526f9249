use argument_parser::DataType;
use argument_parser::ParsedArgument;

#[test]
fn int_literals_decode_exactly() {
    assert_eq!(
        ParsedArgument::from_value("42", DataType::Int32(false)),
        Ok(ParsedArgument::Int32(42))
    );
    assert_eq!(
        ParsedArgument::from_value("-17", DataType::Int32(false)),
        Ok(ParsedArgument::Int32(-17))
    );
    assert_eq!(
        ParsedArgument::from_value("+8", DataType::Int32(false)),
        Ok(ParsedArgument::Int32(8))
    );
    assert_eq!(
        ParsedArgument::from_value("0", DataType::Int32(false)),
        Ok(ParsedArgument::Int32(0))
    );
}

#[test]
fn int_range_limits_are_respected() {
    assert_eq!(
        ParsedArgument::from_value("2147483647", DataType::Int32(false)),
        Ok(ParsedArgument::Int32(i32::MAX))
    );
    assert_eq!(
        ParsedArgument::from_value("-2147483648", DataType::Int32(false)),
        Ok(ParsedArgument::Int32(i32::MIN))
    );
    assert!(ParsedArgument::from_value("2147483648", DataType::Int32(false)).is_err());
    assert!(ParsedArgument::from_value("-2147483649", DataType::Int32(false)).is_err());
    assert!(
        ParsedArgument::from_value("99999999999999999999999", DataType::Int32(false)).is_err()
    );
}

#[test]
fn malformed_ints_are_rejected() {
    assert!(ParsedArgument::from_value("", DataType::Int32(false)).is_err());
    assert!(ParsedArgument::from_value("-", DataType::Int32(false)).is_err());
    assert!(ParsedArgument::from_value("4x", DataType::Int32(false)).is_err());
    assert!(ParsedArgument::from_value("1 2", DataType::Int32(false)).is_err());
    assert_eq!(
        ParsedArgument::from_value("seven", DataType::Int32(false)),
        Err("'seven' is not a 32-bit integer".to_string())
    );
}

#[test]
fn float_literals_keep_their_text() {
    assert_eq!(
        ParsedArgument::from_value("42.0", DataType::Float32(false)),
        Ok(ParsedArgument::Float32("42.0".to_string()))
    );
    assert!(ParsedArgument::from_value("1e5", DataType::Float32(false)).is_ok());
    assert!(ParsedArgument::from_value("-1.5E-3", DataType::Float32(false)).is_ok());
    assert!(ParsedArgument::from_value(".5", DataType::Float32(false)).is_ok());
    assert!(ParsedArgument::from_value("5.", DataType::Float32(false)).is_ok());
    assert!(ParsedArgument::from_value("inf", DataType::Float32(false)).is_ok());
    assert!(ParsedArgument::from_value("-Infinity", DataType::Float32(false)).is_ok());
    assert!(ParsedArgument::from_value("NaN", DataType::Float32(false)).is_ok());
}

#[test]
fn float_literals_agree_with_the_standard_parser() {
    let candidates = [
        "42.0", "1e5", "-1.5E-3", ".5", "5.", "inf", "-Infinity", "NaN", "+2.", "0.0e0", ".",
        "", "e5", "1e", "1.2.3", "one", "0x10", "1_000", " 1", "1 ", "--1", "1e+", "infx",
    ];
    for raw in candidates {
        let decoded = ParsedArgument::from_value(raw, DataType::Float32(false));
        assert_eq!(
            decoded.is_ok(),
            raw.parse::<f32>().is_ok(),
            "disagreement on {:?}",
            raw
        );
    }
}

#[test]
fn malformed_floats_are_rejected() {
    assert!(ParsedArgument::from_value(".", DataType::Float32(false)).is_err());
    assert!(ParsedArgument::from_value("1e", DataType::Float32(false)).is_err());
    assert!(ParsedArgument::from_value("1.2.3", DataType::Float32(false)).is_err());
    assert_eq!(
        ParsedArgument::from_value("one", DataType::Float32(false)),
        Err("'one' is not a 32-bit float".to_string())
    );
}

#[test]
fn bools_accept_only_the_two_literals() {
    assert_eq!(
        ParsedArgument::from_value("true", DataType::Bool(false)),
        Ok(ParsedArgument::Bool(true))
    );
    assert_eq!(
        ParsedArgument::from_value("false", DataType::Bool(false)),
        Ok(ParsedArgument::Bool(false))
    );
    assert!(ParsedArgument::from_value("True", DataType::Bool(false)).is_err());
    assert!(ParsedArgument::from_value("1", DataType::Bool(false)).is_err());
    assert_eq!(
        ParsedArgument::from_value("yes", DataType::Bool(false)),
        Err("'yes' is not a boolean".to_string())
    );
}

#[test]
fn strings_and_paths_pass_through() {
    assert_eq!(
        ParsedArgument::from_value("anything at all", DataType::String(false)),
        Ok(ParsedArgument::String("anything at all".to_string()))
    );
    assert_eq!(
        ParsedArgument::from_value("./a/b.txt", DataType::Path(false)),
        Ok(ParsedArgument::Path("./a/b.txt".to_string()))
    );
    assert_eq!(
        ParsedArgument::from_value("", DataType::String(false)),
        Ok(ParsedArgument::String(String::new()))
    );
}
