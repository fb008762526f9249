//! A ready-made grammar and a matching token list, exercised by the test
//! suite: five positionals of the five data types, and required, optional
//! and default-bearing options.

use vstd::prelude::*;

use crate::argument::DataType;
use crate::builder::UnparsedArgumentBuilder;
use crate::parser::Parser;
use crate::parser::ROOT;

verus! {

/// Builds a grammar with one positional of each data type, four required
/// options, four optional options, and five default-bearing options.
pub fn create_valid_parser() -> (r: Parser)
    ensures
        r@.wf(),
{
    let mut parser = Parser::new();

    let _ = UnparsedArgumentBuilder::new("pos_1", DataType::Int32(false)).build(&mut parser, ROOT);
    let _ = UnparsedArgumentBuilder::new("pos_2", DataType::Float32(false)).build(
        &mut parser,
        ROOT,
    );
    let _ = UnparsedArgumentBuilder::new("pos_3", DataType::String(false)).build(
        &mut parser,
        ROOT,
    );
    let _ = UnparsedArgumentBuilder::new("pos_4", DataType::Bool(false)).build(&mut parser, ROOT);
    let _ = UnparsedArgumentBuilder::new("pos_5", DataType::Path(false)).build(&mut parser, ROOT);

    let _ = UnparsedArgumentBuilder::new("req_1", DataType::Int32(false)).long_name(
        "req-1",
    ).required(true).build(&mut parser, ROOT);
    let _ = UnparsedArgumentBuilder::new("req_2", DataType::Float32(false)).long_name(
        "req-2",
    ).required(true).build(&mut parser, ROOT);
    let _ = UnparsedArgumentBuilder::new("req_3", DataType::String(false)).long_name(
        "req-3",
    ).required(true).build(&mut parser, ROOT);
    let _ = UnparsedArgumentBuilder::new("req_4", DataType::Path(false)).long_name(
        "req-4",
    ).required(true).build(&mut parser, ROOT);

    let _ = UnparsedArgumentBuilder::new("opt_1", DataType::Int32(false)).long_name(
        "opt-1",
    ).required(false).build(&mut parser, ROOT);
    let _ = UnparsedArgumentBuilder::new("opt_2", DataType::Float32(false)).long_name(
        "opt-2",
    ).required(false).build(&mut parser, ROOT);
    let _ = UnparsedArgumentBuilder::new("opt_3", DataType::String(false)).long_name(
        "opt-3",
    ).required(false).build(&mut parser, ROOT);
    let _ = UnparsedArgumentBuilder::new("opt_4", DataType::Path(false)).long_name(
        "opt-4",
    ).required(false).build(&mut parser, ROOT);

    let _ = UnparsedArgumentBuilder::new("def_1", DataType::Int32(false)).long_name(
        "def-1",
    ).default("69").build(&mut parser, ROOT);
    let _ = UnparsedArgumentBuilder::new("def_2", DataType::Float32(false)).long_name(
        "def-2",
    ).default("42.0").build(&mut parser, ROOT);
    let _ = UnparsedArgumentBuilder::new("def_3", DataType::String(false)).long_name(
        "def-3",
    ).default("invalid string").build(&mut parser, ROOT);
    let _ = UnparsedArgumentBuilder::new("def_4", DataType::Bool(false)).long_name(
        "def-4",
    ).default("true").build(&mut parser, ROOT);
    let _ = UnparsedArgumentBuilder::new("def_5", DataType::Path(false)).long_name(
        "def-5",
    ).default("bee_movie_script.txt").build(&mut parser, ROOT);

    parser
}

/// Builds a token list that satisfies [`create_valid_parser`]'s grammar:
/// a value for each required option, then one for each positional.
pub fn create_valid_args() -> (r: Vec<String>)
    ensures
        r.deep_view() == seq![
            "--req-1"@,
            "69"@,
            "--req-2"@,
            "42.0"@,
            "--req-3"@,
            "invalid string"@,
            "--req-4"@,
            "bee_movie_script.txt"@,
            "69"@,
            "42.0"@,
            "invalid string"@,
            "true"@,
            "bee_movie_script.txt"@,
        ],
{
    let mut args: Vec<String> = Vec::new();
    args.push(String::from_str("--req-1"));
    args.push(String::from_str("69"));
    args.push(String::from_str("--req-2"));
    args.push(String::from_str("42.0"));
    args.push(String::from_str("--req-3"));
    args.push(String::from_str("invalid string"));
    args.push(String::from_str("--req-4"));
    args.push(String::from_str("bee_movie_script.txt"));
    args.push(String::from_str("69"));
    args.push(String::from_str("42.0"));
    args.push(String::from_str("invalid string"));
    args.push(String::from_str("true"));
    args.push(String::from_str("bee_movie_script.txt"));
    proof {
        assert(args.deep_view() =~= seq![
            "--req-1"@,
            "69"@,
            "--req-2"@,
            "42.0"@,
            "--req-3"@,
            "invalid string"@,
            "--req-4"@,
            "bee_movie_script.txt"@,
            "69"@,
            "42.0"@,
            "invalid string"@,
            "true"@,
            "bee_movie_script.txt"@,
        ]);
    }
    args
}

} // verus!
