//! Errors of the two tiers: grammar construction and parse time.
//!
//! Construction-time errors are values of [`GrammarError`], each naming the
//! violated invariant.  Parse-time errors are messages accumulated in a
//! result's error list; this module holds their constructors.

use vstd::prelude::*;

use crate::unparsed::UnparsedArgument;

verus! {

/// A violated grammar-construction invariant.
///
/// A malformed grammar is a programming mistake, so registration reports it
/// immediately rather than deferring it to parse time.
#[derive(Debug, Clone, Copy, PartialEq, Eq, Structural)]
pub enum GrammarError {
    /// The destination is already taken by an argument of the same node,
    /// an ancestor, or a descendant.
    DuplicateDestination,
    /// Another option of the same node already uses the short name.
    OccupiedShortName,
    /// Another option of the same node already uses the long name.
    OccupiedLongName,
    /// The option name string matches none of the accepted forms.
    MalformedNames,
    /// An option needs a short or a long name.
    MissingNames,
    /// An argument cannot be required and carry defaults at once.
    RequiredAndDefault,
    /// A non-array argument holds at most one default.
    TooManyDefaults,
    /// A default value was rejected by the value codec.
    InvalidDefault,
    /// Only the last positional of a node may be optional, an array, or
    /// default-bearing.
    MisplacedPositional,
    /// A positional of that shape and a sub-command cannot coexist.
    SubCommandConflict,
    /// Sub-command names are non-empty.
    EmptySubCommandName,
    /// The node already owns a sub-command of that name.
    OccupiedSubCommandName,
    /// The node handle does not name a node of this grammar.
    UnknownNode,
    /// The builder does not accept optional positionals.
    OptionalPositional,
    /// The builder does not accept defaults on positionals.
    DefaultedPositional,
}

impl GrammarError {
    /// A short description of the violated invariant.
    pub fn describe(&self) -> &'static str {
        match self {
            GrammarError::DuplicateDestination => "the destination is already occupied",
            GrammarError::OccupiedShortName => "the short name is already occupied",
            GrammarError::OccupiedLongName => "the long name is already occupied",
            GrammarError::MalformedNames => "the option names were invalidly formatted",
            GrammarError::MissingNames => "an option needs a short or a long name",
            GrammarError::RequiredAndDefault => "an argument can't be required and have a default value",
            GrammarError::TooManyDefaults => "a non-array argument can only have one default value",
            GrammarError::InvalidDefault => "a default value is not of the declared data type",
            GrammarError::MisplacedPositional => "only the last positional can be optional, an array, or defaulted",
            GrammarError::SubCommandConflict => "such a positional can't coexist with sub-commands",
            GrammarError::EmptySubCommandName => "the name of sub-commands can't be empty",
            GrammarError::OccupiedSubCommandName => "a sub-command with that name already exists",
            GrammarError::UnknownNode => "no node with that handle exists",
            GrammarError::OptionalPositional => "positionals cannot be optional",
            GrammarError::DefaultedPositional => "positionals cannot have default values",
        }
    }
}

// ---------------------------------------------------------------------------
// Parse-time error messages.
// ---------------------------------------------------------------------------

/// The message recorded when a token matches no remaining positional.
pub open spec fn spec_unrecognized_positional(raw_arg: Seq<char>) -> Seq<char> {
    "Unrecognized positional '"@ + raw_arg
        + "'. You have already given all positionals a value."@
}

/// The message recorded when an option token matches no remaining option.
pub open spec fn spec_unrecognized_option(raw_arg: Seq<char>) -> Seq<char> {
    "Unrecognized option '"@ + raw_arg + "'. (have you already used it?)"@
}

/// The message recorded when the tokens end where an option's value was
/// expected.
pub open spec fn spec_no_value_provided(name: Seq<char>) -> Seq<char> {
    "No value provided for option '"@ + name + "'."@
}

/// The message recorded when a token is rejected by the value codec.
pub open spec fn spec_invalid_value(is_option: bool, name: Seq<char>, value: Seq<char>) -> Seq<
    char,
> {
    if is_option {
        "Invalid value '"@ + value + "' for option '"@ + name + "'."@
    } else {
        "Invalid value '"@ + value + "' for positional '"@ + name + "'."@
    }
}

/// The message recorded when a destination that should be written once
/// already holds a scalar value.
pub open spec fn spec_duplicate_insertion(destination: Seq<char>) -> Seq<char> {
    "'"@ + destination + "' has already been parsed (this is a bug, report if it happens)"@
}

/// The message recorded when a required positional was never given a
/// value.
pub open spec fn spec_missing_positional(destination: Seq<char>) -> Seq<char> {
    "no value provided for positional '"@ + destination + "'"@
}

/// The message recorded when a required option was never given a value.
pub open spec fn spec_missing_option(destination: Seq<char>) -> Seq<char> {
    "no value provided for option '"@ + destination + "'"@
}

/// The message recorded when a registered default fails to decode.
pub open spec fn spec_invalid_default(value: Seq<char>) -> Seq<char> {
    "'"@ + value + "' is not of the correct data type (this is a bug, report if it happens)"@
}

/// The message recorded when a token names no registered sub-command.
pub open spec fn spec_unknown_sub_command(name: Seq<char>) -> Seq<char> {
    "sub-parser '"@ + name + "' doesn't exist"@
}

/// The message recorded when sub-commands exist but none was chosen.
pub open spec fn spec_no_sub_command_chosen() -> Seq<char> {
    "no sub-parser chosen"@
}

/// Builds the message for a doubly written scalar destination.
pub(crate) fn duplicate_insertion(destination: &str) -> (r: String)
    ensures
        r@ == spec_duplicate_insertion(destination@),
{
    let mut m = String::from_str("'");
    m.append(destination);
    m.append("' has already been parsed (this is a bug, report if it happens)");
    m
}

/// Builds the message for a required positional that stayed unfilled.
pub(crate) fn missing_positional(destination: &str) -> (r: String)
    ensures
        r@ == spec_missing_positional(destination@),
{
    let mut m = String::from_str("no value provided for positional '");
    m.append(destination);
    m.append("'");
    m
}

/// Builds the message for a required option that stayed unfilled.
pub(crate) fn missing_option(destination: &str) -> (r: String)
    ensures
        r@ == spec_missing_option(destination@),
{
    let mut m = String::from_str("no value provided for option '");
    m.append(destination);
    m.append("'");
    m
}

/// Builds the message for a default value the codec rejected.
pub(crate) fn invalid_default(value: &str) -> (r: String)
    ensures
        r@ == spec_invalid_default(value@),
{
    let mut m = String::from_str("'");
    m.append(value);
    m.append("' is not of the correct data type (this is a bug, report if it happens)");
    m
}

/// Builds the message for a token naming no sub-command.
pub(crate) fn unknown_sub_command(name: &str) -> (r: String)
    ensures
        r@ == spec_unknown_sub_command(name@),
{
    let mut m = String::from_str("sub-parser '");
    m.append(name);
    m.append("' doesn't exist");
    m
}

/// Builds the message for a mandatory sub-command that was never chosen.
pub(crate) fn no_sub_command_chosen() -> (r: String)
    ensures
        r@ == spec_no_sub_command_chosen(),
{
    String::from_str("no sub-parser chosen")
}

/// Builds the message for a token that matches no remaining positional.
pub fn unrecognized_positional(raw_arg: &str) -> (r: String)
    ensures
        r@ == spec_unrecognized_positional(raw_arg@),
{
    let mut m = String::from_str("Unrecognized positional '");
    m.append(raw_arg);
    m.append("'. You have already given all positionals a value.");
    m
}

/// Builds the message for an option token that matches no remaining option.
pub fn unrecognized_option(raw_arg: &str) -> (r: String)
    ensures
        r@ == spec_unrecognized_option(raw_arg@),
{
    let mut m = String::from_str("Unrecognized option '");
    m.append(raw_arg);
    m.append("'. (have you already used it?)");
    m
}

/// Builds the message for an option whose value token is missing.
pub fn no_value_provided(unparsed_arg: &UnparsedArgument) -> (r: String)
    ensures
        r@ == spec_no_value_provided(unparsed_arg@.display_name()),
{
    let name = unparsed_arg.get_name();
    let mut m = String::from_str("No value provided for option '");
    m.append(name.as_str());
    m.append("'.");
    m
}

/// Builds the message for a value the codec rejected.
pub fn invalid_value(unparsed_arg: &UnparsedArgument, value: &str) -> (r: String)
    ensures
        r@ == spec_invalid_value(unparsed_arg@.is_option(), unparsed_arg@.display_name(), value@),
{
    let name = unparsed_arg.get_name();
    let mut m = String::from_str("Invalid value '");
    m.append(value);
    match unparsed_arg.is_option() {
        false => m.append("' for positional '"),
        true => m.append("' for option '"),
    }
    m.append(name.as_str());
    m.append("'.");
    m
}

} // verus!
