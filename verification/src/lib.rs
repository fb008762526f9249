//! A declarative command-line grammar builder and matcher.
//!
//! Callers register positional and named (option) arguments — with data
//! types, arity, requiredness and default values — optionally organized
//! into a tree of sub-commands, and [`Parser::parse`] resolves a flat
//! token stream into a structured [`ParseResult`], accumulating all
//! discoverable errors rather than failing on the first one.
//!
//! Every registration operation states exactly when it succeeds and what
//! grammar it leaves behind, and `parse` is proved to return exactly the
//! value of the mathematical resolver [`resolver::spec_resolve`].

pub mod argument;
pub mod builder;
pub mod error;
pub mod laws;
pub mod parsed;
pub mod parser;
pub mod resolver;
pub mod result;
pub mod sample;
pub mod unparsed;
pub mod validation;

pub use argument::DataType;
pub use argument::OptionArgument;
pub use argument::PositionalArgument;
pub use builder::UnparsedArgumentBuilder;
pub use error::GrammarError;
pub use error::invalid_value;
pub use error::no_value_provided;
pub use error::unrecognized_option;
pub use error::unrecognized_positional;
pub use parsed::ParsedArgument;
pub use parser::Parser;
pub use parser::ROOT;
pub use result::ChildResult;
pub use result::ParseResult;
pub use sample::create_valid_args;
pub use sample::create_valid_parser;
pub use unparsed::Optionality;
pub use unparsed::UnparsedArgument;
pub use validation::validate_long;
pub use validation::validate_short;
