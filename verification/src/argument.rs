//! Argument descriptors: the declared shape of one positional or option
//! argument, validated as it is built.

use vstd::prelude::*;

use crate::error::GrammarError;
use crate::parsed::decodes;
use crate::unparsed::Optionality;
use crate::unparsed::OptionalityView;
use crate::unparsed::UnparsedArgument;
use crate::unparsed::UnparsedArgumentView;
use crate::validation::is_valid_long_name;
use crate::validation::is_valid_names;
use crate::validation::is_valid_short_name;
use crate::validation::opt_view;
use crate::validation::spec_extract_names;

verus! {

/// A representation of an argument's data type and plurality
/// (whether it is an array or not).
///
/// `DataType::Int32(true)` is an array of 32-bit integers,
/// `DataType::Int32(false)` a single one.
#[derive(Debug, Clone, Copy, PartialEq, Eq, Structural)]
pub enum DataType {
    Int32(bool),
    Float32(bool),
    String(bool),
    Bool(bool),
    Path(bool),
}

impl DataType {
    /// Whether the data type is an array.
    pub open spec fn spec_is_array(&self) -> bool {
        match self {
            DataType::Int32(value) => *value,
            DataType::Float32(value) => *value,
            DataType::String(value) => *value,
            DataType::Bool(value) => *value,
            DataType::Path(value) => *value,
        }
    }

    /// Checks whether or not the data type is an array.
    #[verifier::when_used_as_spec(spec_is_array)]
    pub fn is_array(&self) -> (r: bool)
        ensures
            r == self.spec_is_array(),
    {
        match self {
            DataType::Int32(value) => *value,
            DataType::Float32(value) => *value,
            DataType::String(value) => *value,
            DataType::Bool(value) => *value,
            DataType::Path(value) => *value,
        }
    }
}

/// The effective requiredness policy of an argument: explicitly required,
/// or covered by defaults, or explicitly optional; an argument that states
/// nothing is required unless defaults are present.
pub open spec fn effective_optionality(
    is_required: Option<bool>,
    defaults: Option<Seq<Seq<char>>>,
) -> OptionalityView {
    if is_required == Some(true) {
        OptionalityView::Required
    } else {
        match defaults {
            Some(ds) => if ds.len() > 0 {
                OptionalityView::Default(ds)
            } else if is_required == Some(false) {
                OptionalityView::Optional
            } else {
                OptionalityView::Required
            },
            None => if is_required == Some(false) {
                OptionalityView::Optional
            } else {
                OptionalityView::Required
            },
        }
    }
}

/// Every default of `ds` decodes under `data_type`.
pub open spec fn all_defaults_decode(ds: Seq<Seq<char>>, data_type: DataType) -> bool {
    forall|i: int| 0 <= i < ds.len() ==> decodes(#[trigger] ds[i], data_type)
}

/// Computes the effective requiredness policy.
pub(crate) fn effective(is_required: &Option<bool>, defaults: &Option<Vec<String>>) -> (r: Optionality)
    ensures
        r@ == effective_optionality(*is_required, defaults.deep_view()),
{
    if *is_required == Some(true) {
        Optionality::Required
    } else {
        match defaults {
            Some(ds) => if ds.len() > 0 {
                Optionality::Default(crate::unparsed::clone_string_vec(ds))
            } else if *is_required == Some(false) {
                Optionality::Optional
            } else {
                Optionality::Required
            },
            None => if *is_required == Some(false) {
                Optionality::Optional
            } else {
                Optionality::Required
            },
        }
    }
}

/// Checks each default against the value codec.
fn defaults_decode(defaults: &Vec<String>, data_type: DataType) -> (r: bool)
    ensures
        r == all_defaults_decode(defaults.deep_view(), data_type),
{
    let mut i: usize = 0;
    while i < defaults.len()
        invariant
            i <= defaults.len(),
            forall|j: int| 0 <= j < i ==> decodes(#[trigger] defaults.deep_view()[j], data_type),
        decreases defaults.len() - i,
    {
        let ok = crate::parsed::ParsedArgument::from_value(defaults[i].as_str(), data_type);
        if ok.is_err() {
            assert(!decodes(defaults.deep_view()[i as int], data_type));
            return false;
        }
        assert(decodes(defaults.deep_view()[i as int], data_type));
        i = i + 1;
    }
    true
}

// ---------------------------------------------------------------------------
// Option arguments.
// ---------------------------------------------------------------------------

/// An argument that is parsed by inputting its name and value in successive
/// order, except for non-array `Bool` options, which are toggled by their
/// name alone.
#[derive(Debug)]
pub struct OptionArgument {
    pub short_name: Option<String>,
    pub long_name: Option<String>,
    pub destination: String,
    pub data_type: DataType,
    pub is_required: Option<bool>,
    pub default_values: Option<Vec<String>>,
}

/// The mathematical shape of an [`OptionArgument`].
pub ghost struct OptionArgumentView {
    pub short_name: Option<Seq<char>>,
    pub long_name: Option<Seq<char>>,
    pub destination: Seq<char>,
    pub data_type: DataType,
    pub is_required: Option<bool>,
    pub default_values: Option<Seq<Seq<char>>>,
}

impl View for OptionArgument {
    type V = OptionArgumentView;

    open spec fn view(&self) -> OptionArgumentView {
        OptionArgumentView {
            short_name: opt_view(self.short_name),
            long_name: opt_view(self.long_name),
            destination: self.destination@,
            data_type: self.data_type,
            is_required: self.is_required,
            default_values: self.default_values.deep_view(),
        }
    }
}

impl OptionArgumentView {
    /// A well-formed option descriptor: at least one valid name, no
    /// required-with-default conflict, at most one default for a scalar,
    /// and defaults that decode.
    pub open spec fn wf(self) -> bool {
        &&& self.short_name is Some || self.long_name is Some
        &&& self.short_name matches Some(s) ==> is_valid_short_name(s)
        &&& self.long_name matches Some(l) ==> is_valid_long_name(l)
        &&& self.is_required == Some(true) ==> self.default_values is None
        &&& self.default_values matches Some(ds) ==> (self.data_type.spec_is_array() || ds.len()
            <= 1)
        &&& self.default_values matches Some(ds) ==> all_defaults_decode(ds, self.data_type)
    }

    /// The uniform declared-argument record behind this option.
    pub open spec fn as_unparsed(self) -> UnparsedArgumentView {
        UnparsedArgumentView {
            description: Seq::empty(),
            destination: self.destination,
            data_type: self.data_type,
            short_name: self.short_name,
            long_name: self.long_name,
            optionality: effective_optionality(self.is_required, self.default_values),
        }
    }
}

/// What [`OptionArgument::new`] returns for a name specification string.
pub open spec fn spec_option_new(
    names: Seq<char>,
    destination: Seq<char>,
    data_type: DataType,
) -> Result<OptionArgumentView, GrammarError> {
    if is_valid_names(names) {
        let (s, l) = spec_extract_names(names);
        Ok(
            OptionArgumentView {
                short_name: s,
                long_name: l,
                destination,
                data_type,
                is_required: None,
                default_values: None,
            },
        )
    } else {
        Err(GrammarError::MalformedNames)
    }
}

/// What [`OptionArgument::is_required`] returns.
pub open spec fn spec_option_required(o: OptionArgumentView, is_required: bool) -> Result<
    OptionArgumentView,
    GrammarError,
> {
    if o.default_values is Some && is_required {
        Err(GrammarError::RequiredAndDefault)
    } else {
        Ok(OptionArgumentView { is_required: Some(is_required), ..o })
    }
}

/// What [`OptionArgument::default_value`] returns.
pub open spec fn spec_option_default_value(o: OptionArgumentView, value: Seq<char>) -> Result<
    OptionArgumentView,
    GrammarError,
> {
    if o.is_required == Some(true) {
        Err(GrammarError::RequiredAndDefault)
    } else if !decodes(value, o.data_type) {
        Err(GrammarError::InvalidDefault)
    } else {
        Ok(OptionArgumentView { default_values: Some(seq![value]), ..o })
    }
}

/// What [`OptionArgument::default_values`] returns.
pub open spec fn spec_option_default_values(o: OptionArgumentView, values: Seq<Seq<char>>) -> Result<
    OptionArgumentView,
    GrammarError,
> {
    if o.is_required == Some(true) {
        Err(GrammarError::RequiredAndDefault)
    } else if !o.data_type.spec_is_array() {
        Err(GrammarError::TooManyDefaults)
    } else if !all_defaults_decode(values, o.data_type) {
        Err(GrammarError::InvalidDefault)
    } else {
        Ok(OptionArgumentView { default_values: Some(values), ..o })
    }
}

impl OptionArgument {
    /// Creates a default-configured option argument.
    ///
    /// Fails when `names` is not of the form `-s`, `--long-name`, or
    /// `-s, --long-name`.
    pub fn new(names: &str, destination: &str, data_type: DataType) -> (r: Result<
        Self,
        GrammarError,
    >)
        ensures
            match r {
                Ok(o) => spec_option_new(names@, destination@, data_type) == Ok::<
                    OptionArgumentView,
                    GrammarError,
                >(o@) && o@.wf(),
                Err(e) => spec_option_new(names@, destination@, data_type) == Err::<
                    OptionArgumentView,
                    GrammarError,
                >(e),
            },
    {
        let (short_name, long_name) = crate::validation::extract_names(names);
        if short_name.is_none() && long_name.is_none() {
            proof {
                lemma_extract_names_none(names@);
            }
            return Err(GrammarError::MalformedNames);
        }
        proof {
            lemma_extract_names_some(names@);
        }
        Ok(
            OptionArgument {
                short_name,
                long_name,
                destination: String::from_str(destination),
                data_type,
                is_required: None,
                default_values: None,
            },
        )
    }

    /// Sets whether the argument is required or optional.
    ///
    /// Fails when the argument is set to required despite having default
    /// values.
    pub fn is_required(self, is_required: bool) -> (r: Result<Self, GrammarError>)
        requires
            self@.wf(),
        ensures
            match r {
                Ok(o) => spec_option_required(self@, is_required) == Ok::<
                    OptionArgumentView,
                    GrammarError,
                >(o@) && o@.wf(),
                Err(e) => spec_option_required(self@, is_required) == Err::<
                    OptionArgumentView,
                    GrammarError,
                >(e),
            },
    {
        if self.default_values.is_some() && is_required {
            return Err(GrammarError::RequiredAndDefault);
        }
        Ok(OptionArgument { is_required: Some(is_required), ..self })
    }

    /// Sets the single default value of the argument.
    ///
    /// Fails when the argument is required, or when the value does not
    /// decode under the argument's data type.
    pub fn default_value(self, default_value: &str) -> (r: Result<Self, GrammarError>)
        requires
            self@.wf(),
        ensures
            match r {
                Ok(o) => spec_option_default_value(self@, default_value@) == Ok::<
                    OptionArgumentView,
                    GrammarError,
                >(o@) && o@.wf(),
                Err(e) => spec_option_default_value(self@, default_value@) == Err::<
                    OptionArgumentView,
                    GrammarError,
                >(e),
            },
    {
        if self.is_required == Some(true) {
            return Err(GrammarError::RequiredAndDefault);
        }
        if crate::parsed::ParsedArgument::from_value(default_value, self.data_type).is_err() {
            return Err(GrammarError::InvalidDefault);
        }
        let mut defaults: Vec<String> = Vec::new();
        defaults.push(String::from_str(default_value));
        let r = OptionArgument { default_values: Some(defaults), ..self };
        proof {
            assert(r@.default_values == Some(seq![default_value@])) by {
                assert(r@.default_values->0 =~= seq![default_value@]);
            }
        }
        Ok(r)
    }

    /// Sets the default values of the argument.
    ///
    /// Fails when the argument is required, when it is not an array, or
    /// when a value does not decode under the argument's data type.
    pub fn default_values(self, default_values: Vec<String>) -> (r: Result<Self, GrammarError>)
        requires
            self@.wf(),
        ensures
            match r {
                Ok(o) => spec_option_default_values(self@, default_values.deep_view()) == Ok::<
                    OptionArgumentView,
                    GrammarError,
                >(o@) && o@.wf(),
                Err(e) => spec_option_default_values(self@, default_values.deep_view()) == Err::<
                    OptionArgumentView,
                    GrammarError,
                >(e),
            },
    {
        if self.is_required == Some(true) {
            return Err(GrammarError::RequiredAndDefault);
        }
        if !self.data_type.is_array() {
            return Err(GrammarError::TooManyDefaults);
        }
        if !defaults_decode(&default_values, self.data_type) {
            return Err(GrammarError::InvalidDefault);
        }
        Ok(OptionArgument { default_values: Some(default_values), ..self })
    }

    /// Reduces the option to the uniform declared-argument record.
    pub(crate) fn to_unparsed(&self) -> (r: UnparsedArgument)
        ensures
            r@ == self@.as_unparsed(),
    {
        UnparsedArgument {
            description: String::new(),
            destination: crate::unparsed::clone_string(&self.destination),
            data_type: self.data_type,
            short_name: crate::unparsed::clone_opt_string(&self.short_name),
            long_name: crate::unparsed::clone_opt_string(&self.long_name),
            optionality: effective(&self.is_required, &self.default_values),
        }
    }
}

/// A name specification from which nothing was extracted is invalid.
proof fn lemma_extract_names_none(names: Seq<char>)
    requires
        spec_extract_names(names) == (None::<Seq<char>>, None::<Seq<char>>),
    ensures
        !is_valid_names(names),
{
}

/// A name specification from which something was extracted is valid, and
/// what was extracted are well-formed names.
proof fn lemma_extract_names_some(names: Seq<char>)
    requires
        spec_extract_names(names) != (None::<Seq<char>>, None::<Seq<char>>),
    ensures
        is_valid_names(names),
        spec_extract_names(names).0 matches Some(s) ==> is_valid_short_name(s),
        spec_extract_names(names).1 matches Some(l) ==> is_valid_long_name(l),
{
}

// ---------------------------------------------------------------------------
// Positional arguments.
// ---------------------------------------------------------------------------

/// An argument that is matched purely by its position among the unnamed
/// tokens.
#[derive(Debug)]
pub struct PositionalArgument {
    pub destination: String,
    pub data_type: DataType,
    pub is_required: Option<bool>,
    pub defaults: Option<Vec<String>>,
}

/// The mathematical shape of a [`PositionalArgument`].
pub ghost struct PositionalArgumentView {
    pub destination: Seq<char>,
    pub data_type: DataType,
    pub is_required: Option<bool>,
    pub defaults: Option<Seq<Seq<char>>>,
}

impl View for PositionalArgument {
    type V = PositionalArgumentView;

    open spec fn view(&self) -> PositionalArgumentView {
        PositionalArgumentView {
            destination: self.destination@,
            data_type: self.data_type,
            is_required: self.is_required,
            defaults: self.defaults.deep_view(),
        }
    }
}

impl PositionalArgumentView {
    /// A well-formed positional descriptor.
    pub open spec fn wf(self) -> bool {
        &&& self.is_required == Some(true) ==> self.defaults is None
        &&& self.defaults matches Some(ds) ==> (self.data_type.spec_is_array() || ds.len() <= 1)
        &&& self.defaults matches Some(ds) ==> all_defaults_decode(ds, self.data_type)
    }

    /// A positional of this shape must stand last in its node: it is
    /// optional, an array, or default-bearing.
    pub open spec fn is_special(self) -> bool {
        ||| self.is_required == Some(false)
        ||| self.defaults is Some
        ||| self.data_type.spec_is_array()
    }

    /// The uniform declared-argument record behind this positional.
    pub open spec fn as_unparsed(self) -> UnparsedArgumentView {
        UnparsedArgumentView {
            description: Seq::empty(),
            destination: self.destination,
            data_type: self.data_type,
            short_name: None,
            long_name: None,
            optionality: effective_optionality(self.is_required, self.defaults),
        }
    }
}

/// What [`PositionalArgument::is_required`] returns.
pub open spec fn spec_positional_required(q: PositionalArgumentView, is_required: bool) -> Result<
    PositionalArgumentView,
    GrammarError,
> {
    if is_required && q.defaults is Some {
        Err(GrammarError::RequiredAndDefault)
    } else {
        Ok(PositionalArgumentView { is_required: Some(is_required), ..q })
    }
}

/// What [`PositionalArgument::defaults`] returns.
pub open spec fn spec_positional_defaults(q: PositionalArgumentView, values: Seq<Seq<char>>) -> Result<
    PositionalArgumentView,
    GrammarError,
> {
    if !q.data_type.spec_is_array() && values.len() > 1 {
        Err(GrammarError::TooManyDefaults)
    } else if q.is_required == Some(true) {
        Err(GrammarError::RequiredAndDefault)
    } else if !all_defaults_decode(values, q.data_type) {
        Err(GrammarError::InvalidDefault)
    } else {
        Ok(PositionalArgumentView { defaults: Some(values), ..q })
    }
}

impl PositionalArgument {
    /// Creates a default-configured positional argument.
    pub fn new(destination: &str, data_type: DataType) -> (r: Self)
        ensures
            r@ == (PositionalArgumentView {
                destination: destination@,
                data_type,
                is_required: None,
                defaults: None,
            }),
            r@.wf(),
    {
        PositionalArgument {
            destination: String::from_str(destination),
            data_type,
            is_required: None,
            defaults: None,
        }
    }

    /// Sets whether the argument is required or optional.
    ///
    /// Fails when the argument is set to required despite having default
    /// values.
    pub fn is_required(self, is_required: bool) -> (r: Result<Self, GrammarError>)
        requires
            self@.wf(),
        ensures
            match r {
                Ok(q) => spec_positional_required(self@, is_required) == Ok::<
                    PositionalArgumentView,
                    GrammarError,
                >(q@) && q@.wf(),
                Err(e) => spec_positional_required(self@, is_required) == Err::<
                    PositionalArgumentView,
                    GrammarError,
                >(e),
            },
    {
        if is_required && self.defaults.is_some() {
            return Err(GrammarError::RequiredAndDefault);
        }
        Ok(PositionalArgument { is_required: Some(is_required), ..self })
    }

    /// Sets the default values of the argument.
    ///
    /// Fails when a scalar is given several values, when the argument is
    /// required, or when a value does not decode under the argument's data
    /// type.
    pub fn defaults(self, defaults: Vec<String>) -> (r: Result<Self, GrammarError>)
        requires
            self@.wf(),
        ensures
            match r {
                Ok(q) => spec_positional_defaults(self@, defaults.deep_view()) == Ok::<
                    PositionalArgumentView,
                    GrammarError,
                >(q@) && q@.wf(),
                Err(e) => spec_positional_defaults(self@, defaults.deep_view()) == Err::<
                    PositionalArgumentView,
                    GrammarError,
                >(e),
            },
    {
        if !self.data_type.is_array() && defaults.len() > 1 {
            return Err(GrammarError::TooManyDefaults);
        }
        if self.is_required == Some(true) {
            return Err(GrammarError::RequiredAndDefault);
        }
        if !defaults_decode(&defaults, self.data_type) {
            return Err(GrammarError::InvalidDefault);
        }
        Ok(PositionalArgument { defaults: Some(defaults), ..self })
    }

    /// Reduces the positional to the uniform declared-argument record.
    pub(crate) fn to_unparsed(&self) -> (r: UnparsedArgument)
        ensures
            r@ == self@.as_unparsed(),
    {
        UnparsedArgument {
            description: String::new(),
            destination: crate::unparsed::clone_string(&self.destination),
            data_type: self.data_type,
            short_name: None,
            long_name: None,
            optionality: effective(&self.is_required, &self.defaults),
        }
    }
}

} // verus!
