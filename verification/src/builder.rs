//! A builder front-end over registration: one call chain collects an
//! argument's fields, and `build` validates them and registers the
//! argument as a positional or an option, depending on whether names were
//! given.
//!
//! The builder is stricter than the direct registration methods in one
//! respect: a positional built through it is never optional and never
//! default-bearing.

use vstd::prelude::*;

use crate::argument::DataType;
use crate::argument::OptionArgument;
use crate::argument::OptionArgumentView;
use crate::argument::PositionalArgument;
use crate::argument::PositionalArgumentView;
use crate::error::GrammarError;
use crate::parsed::decodes;
use crate::parser::Parser;
use crate::parser::ParserView;
use crate::parser::spec_add_option;
use crate::parser::spec_add_positional;
use crate::validation::is_valid_long_name;
use crate::validation::is_valid_short_name;
use crate::validation::opt_view;

verus! {

/// The collected fields of one argument about to be registered.
pub struct UnparsedArgumentBuilder {
    pub destination: String,
    pub data_type: DataType,
    pub description: String,
    pub short_name: Option<String>,
    pub long_name: Option<String>,
    pub required: Option<bool>,
    pub default: Option<String>,
}

/// The mathematical shape of an [`UnparsedArgumentBuilder`].
#[verifier::ext_equal]
pub ghost struct UnparsedArgumentBuilderView {
    pub destination: Seq<char>,
    pub data_type: DataType,
    pub description: Seq<char>,
    pub short_name: Option<Seq<char>>,
    pub long_name: Option<Seq<char>>,
    pub required: Option<bool>,
    pub default: Option<Seq<char>>,
}

impl View for UnparsedArgumentBuilder {
    type V = UnparsedArgumentBuilderView;

    open spec fn view(&self) -> UnparsedArgumentBuilderView {
        UnparsedArgumentBuilderView {
            destination: self.destination@,
            data_type: self.data_type,
            description: self.description@,
            short_name: opt_view(self.short_name),
            long_name: opt_view(self.long_name),
            required: self.required,
            default: match self.default {
                Some(d) => Some(d@),
                None => None,
            },
        }
    }
}

/// The option descriptor a builder's fields stand for.
pub open spec fn builder_option(b: UnparsedArgumentBuilderView) -> OptionArgumentView {
    OptionArgumentView {
        short_name: b.short_name,
        long_name: b.long_name,
        destination: b.destination,
        data_type: b.data_type,
        is_required: Some(b.required == Some(true)),
        default_values: match b.default {
            Some(d) => Some(seq![d]),
            None => None,
        },
    }
}

/// The positional descriptor a builder's fields stand for.
pub open spec fn builder_positional(b: UnparsedArgumentBuilderView) -> PositionalArgumentView {
    PositionalArgumentView {
        destination: b.destination,
        data_type: b.data_type,
        is_required: b.required,
        defaults: None,
    }
}

/// What [`UnparsedArgumentBuilder::build`] does for an option: its local
/// checks, in order, then registration.
pub open spec fn spec_build_option(
    b: UnparsedArgumentBuilderView,
    p: ParserView,
    node: int,
) -> Result<ParserView, GrammarError> {
    if b.default is Some && b.required == Some(true) {
        Err(GrammarError::RequiredAndDefault)
    } else if b.default matches Some(d) && !decodes(d, b.data_type) {
        Err(GrammarError::InvalidDefault)
    } else if b.short_name matches Some(s) && !is_valid_short_name(s) {
        Err(GrammarError::MalformedNames)
    } else if b.long_name matches Some(l) && !is_valid_long_name(l) {
        Err(GrammarError::MalformedNames)
    } else {
        spec_add_option(p, node, builder_option(b))
    }
}

/// What [`UnparsedArgumentBuilder::build`] does for a positional.
pub open spec fn spec_build_positional(
    b: UnparsedArgumentBuilderView,
    p: ParserView,
    node: int,
) -> Result<ParserView, GrammarError> {
    if b.required == Some(false) {
        Err(GrammarError::OptionalPositional)
    } else if b.default is Some {
        Err(GrammarError::DefaultedPositional)
    } else {
        spec_add_positional(p, node, builder_positional(b))
    }
}

/// What [`UnparsedArgumentBuilder::build`] does.
pub open spec fn spec_build(
    b: UnparsedArgumentBuilderView,
    p: ParserView,
    node: int,
) -> Result<ParserView, GrammarError> {
    if b.short_name is Some || b.long_name is Some {
        spec_build_option(b, p, node)
    } else {
        spec_build_positional(b, p, node)
    }
}

impl UnparsedArgumentBuilder {
    /// Starts collecting an argument storing into `destination`.
    pub fn new(destination: &str, data_type: DataType) -> (r: Self)
        ensures
            r@ == (UnparsedArgumentBuilderView {
                destination: destination@,
                data_type,
                description: Seq::empty(),
                short_name: None,
                long_name: None,
                required: None,
                default: None,
            }),
    {
        UnparsedArgumentBuilder {
            destination: String::from_str(destination),
            data_type,
            description: String::new(),
            short_name: None,
            long_name: None,
            required: None,
            default: None,
        }
    }

    /// Sets the argument's description.
    pub fn description(self, description: &str) -> (r: Self)
        ensures
            r@ == (UnparsedArgumentBuilderView { description: description@, ..self@ }),
    {
        UnparsedArgumentBuilder { description: String::from_str(description), ..self }
    }

    /// Sets the argument's short name, making it an option.
    pub fn short_name(self, short_name: &str) -> (r: Self)
        ensures
            r@ == (UnparsedArgumentBuilderView { short_name: Some(short_name@), ..self@ }),
    {
        UnparsedArgumentBuilder { short_name: Some(String::from_str(short_name)), ..self }
    }

    /// Sets the argument's long name, making it an option.
    pub fn long_name(self, long_name: &str) -> (r: Self)
        ensures
            r@ == (UnparsedArgumentBuilderView { long_name: Some(long_name@), ..self@ }),
    {
        UnparsedArgumentBuilder { long_name: Some(String::from_str(long_name)), ..self }
    }

    /// Sets whether the argument is required.
    pub fn required(self, required: bool) -> (r: Self)
        ensures
            r@ == (UnparsedArgumentBuilderView { required: Some(required), ..self@ }),
    {
        UnparsedArgumentBuilder { required: Some(required), ..self }
    }

    /// Sets the argument's default value.
    pub fn default(self, default: &str) -> (r: Self)
        ensures
            r@ == (UnparsedArgumentBuilderView { default: Some(default@), ..self@ }),
    {
        UnparsedArgumentBuilder { default: Some(String::from_str(default)), ..self }
    }

    /// Validates the collected fields and registers the argument with the
    /// node: as an option when a name was given, as a positional
    /// otherwise.
    pub fn build(self, parser: &mut Parser, node: usize) -> (r: Result<(), GrammarError>)
        requires
            old(parser)@.wf(),
        ensures
            final(parser)@.wf(),
            match spec_build(self@, old(parser)@, node as int) {
                Ok(v) => r is Ok && final(parser)@ == v,
                Err(e) => r == Err::<(), GrammarError>(e) && final(parser)@ == old(parser)@,
            },
    {
        let is_option = self.short_name.is_some() || self.long_name.is_some();
        if is_option {
            self.build_option(parser, node)
        } else {
            self.build_positional(parser, node)
        }
    }

    /// Validates and registers an option.
    fn build_option(self, parser: &mut Parser, node: usize) -> (r: Result<(), GrammarError>)
        requires
            old(parser)@.wf(),
            self@.short_name is Some || self@.long_name is Some,
        ensures
            final(parser)@.wf(),
            match spec_build_option(self@, old(parser)@, node as int) {
                Ok(v) => r is Ok && final(parser)@ == v,
                Err(e) => r == Err::<(), GrammarError>(e) && final(parser)@ == old(parser)@,
            },
    {
        let required = match self.required {
            Some(value) => value,
            None => false,
        };
        match &self.default {
            Some(default) => {
                if required {
                    return Err(GrammarError::RequiredAndDefault);
                }
                if crate::parsed::ParsedArgument::from_value(
                    default.as_str(),
                    self.data_type,
                ).is_err() {
                    return Err(GrammarError::InvalidDefault);
                }
            },
            None => {},
        }
        match &self.short_name {
            Some(short_name) => if !crate::validation::short_name_ok(short_name.as_str()) {
                return Err(GrammarError::MalformedNames);
            },
            None => {},
        }
        match &self.long_name {
            Some(long_name) => if !crate::validation::long_name_ok(long_name.as_str()) {
                return Err(GrammarError::MalformedNames);
            },
            None => {},
        }
        let default_values: Option<Vec<String>> = match self.default {
            Some(default) => {
                let mut values: Vec<String> = Vec::new();
                values.push(default);
                Some(values)
            },
            None => None,
        };
        let option = OptionArgument {
            short_name: self.short_name,
            long_name: self.long_name,
            destination: self.destination,
            data_type: self.data_type,
            is_required: Some(required),
            default_values,
        };
        proof {
            assert(option@.default_values == builder_option(self@).default_values) by {
                match self@.default {
                    Some(d) => {
                        assert(option@.default_values->0 =~= seq![d]);
                    },
                    None => {},
                }
            }
            assert(option@ == builder_option(self@));
            assert(option@.wf());
        }
        parser.add_option(node, option)
    }

    /// Validates and registers a positional.
    fn build_positional(self, parser: &mut Parser, node: usize) -> (r: Result<(), GrammarError>)
        requires
            old(parser)@.wf(),
        ensures
            final(parser)@.wf(),
            match spec_build_positional(self@, old(parser)@, node as int) {
                Ok(v) => r is Ok && final(parser)@ == v,
                Err(e) => r == Err::<(), GrammarError>(e) && final(parser)@ == old(parser)@,
            },
    {
        if self.required == Some(false) {
            return Err(GrammarError::OptionalPositional);
        }
        if self.default.is_some() {
            return Err(GrammarError::DefaultedPositional);
        }
        let positional = PositionalArgument {
            destination: self.destination,
            data_type: self.data_type,
            is_required: self.required,
            defaults: None,
        };
        proof {
            assert(positional@ == builder_positional(self@));
            assert(positional@.wf());
        }
        parser.add_positional(node, positional)
    }
}

} // verus!
