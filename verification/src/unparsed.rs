//! The uniform declared-argument record.
//!
//! Positional and option descriptors both reduce to an [`UnparsedArgument`]:
//! the form the resolver reasons about when it names an argument in an error
//! message and when it applies the effective requiredness policy.

use vstd::prelude::*;

use crate::argument::DataType;

verus! {

/// The effective requiredness policy of a declared argument: it must be
/// supplied, it may be missing, or a default list covers it.
#[derive(Debug, PartialEq)]
pub enum Optionality {
    Required,
    Optional,
    Default(Vec<String>),
}

/// The mathematical shape of an [`Optionality`].
pub ghost enum OptionalityView {
    Required,
    Optional,
    Default(Seq<Seq<char>>),
}

impl View for Optionality {
    type V = OptionalityView;

    open spec fn view(&self) -> OptionalityView {
        match self {
            Optionality::Required => OptionalityView::Required,
            Optionality::Optional => OptionalityView::Optional,
            Optionality::Default(vs) => OptionalityView::Default(vs.deep_view()),
        }
    }
}

impl Optionality {
    /// Whether this policy is covered by defaults.
    pub fn is_default(&self) -> (r: bool)
        ensures
            r == (self@ is Default),
    {
        if let Self::Default(_) = self {
            true
        } else {
            false
        }
    }
}

/// One declared argument, reduced to what the resolver needs: where its
/// value goes, how it is written, and when it may be left out.
#[derive(Debug)]
pub struct UnparsedArgument {
    pub description: String,
    pub destination: String,
    pub data_type: DataType,
    pub short_name: Option<String>,
    pub long_name: Option<String>,
    pub optionality: Optionality,
}

/// The mathematical shape of an [`UnparsedArgument`].
pub ghost struct UnparsedArgumentView {
    pub description: Seq<char>,
    pub destination: Seq<char>,
    pub data_type: DataType,
    pub short_name: Option<Seq<char>>,
    pub long_name: Option<Seq<char>>,
    pub optionality: OptionalityView,
}

impl View for UnparsedArgument {
    type V = UnparsedArgumentView;

    open spec fn view(&self) -> UnparsedArgumentView {
        UnparsedArgumentView {
            description: self.description@,
            destination: self.destination@,
            data_type: self.data_type,
            short_name: crate::validation::opt_view(self.short_name),
            long_name: crate::validation::opt_view(self.long_name),
            optionality: self.optionality@,
        }
    }
}

impl UnparsedArgumentView {
    /// An argument is an option when it carries a short or a long name.
    pub open spec fn is_option(self) -> bool {
        self.short_name is Some || self.long_name is Some
    }

    /// An argument without names is matched by position.
    pub open spec fn is_positional(self) -> bool {
        self.short_name is None && self.long_name is None
    }

    /// A flag is a non-array boolean option: it is toggled, not given a
    /// value token.
    pub open spec fn is_flag(self) -> bool {
        self.is_option() && self.data_type == DataType::Bool(false)
    }

    /// How the argument is written in messages: its dashed names, or the
    /// destination when it has none.
    pub open spec fn display_name(self) -> Seq<char> {
        match (self.short_name, self.long_name) {
            (None, None) => self.destination,
            (Some(s), Some(l)) => "-"@ + s + ", --"@ + l,
            (Some(s), None) => "-"@ + s,
            (None, Some(l)) => "--"@ + l,
        }
    }
}

impl UnparsedArgument {
    /// Renders the argument's name for messages.
    pub fn get_name(&self) -> (r: String)
        ensures
            r@ == self@.display_name(),
    {
        match (&self.short_name, &self.long_name) {
            (None, None) => clone_string(&self.destination),
            (Some(short), Some(long)) => {
                let mut m = String::from_str("-");
                m.append(short.as_str());
                m.append(", --");
                m.append(long.as_str());
                m
            },
            (Some(short), None) => {
                let mut m = String::from_str("-");
                m.append(short.as_str());
                m
            },
            (None, Some(long)) => {
                let mut m = String::from_str("--");
                m.append(long.as_str());
                m
            },
        }
    }

    /// Whether the argument is an option.
    pub fn is_option(&self) -> (r: bool)
        ensures
            r == self@.is_option(),
    {
        self.short_name.is_some() || self.long_name.is_some()
    }

    /// Whether the argument is matched by position.
    pub fn is_positional(&self) -> (r: bool)
        ensures
            r == self@.is_positional(),
    {
        self.short_name.is_none() && self.long_name.is_none()
    }

    /// Whether the argument is a toggled flag.
    pub fn is_flag(&self) -> (r: bool)
        ensures
            r == self@.is_flag(),
    {
        let plain_bool = match self.data_type {
            DataType::Bool(is_array) => !is_array,
            _ => false,
        };
        !self.is_positional() && plain_bool
    }
}

/// Copies a string.
pub(crate) fn clone_string(s: &String) -> (r: String)
    ensures
        r@ == s@,
{
    s.clone()
}

/// Copies an optional string.
pub(crate) fn clone_opt_string(s: &Option<String>) -> (r: Option<String>)
    ensures
        crate::validation::opt_view(r) == crate::validation::opt_view(*s),
{
    match s {
        Some(v) => Some(v.clone()),
        None => None,
    }
}

/// Copies an optional list of strings.
pub(crate) fn clone_opt_string_vec(v: &Option<Vec<String>>) -> (r: Option<Vec<String>>)
    ensures
        r.deep_view() == v.deep_view(),
{
    match v {
        Some(vs) => Some(clone_string_vec(vs)),
        None => None,
    }
}

/// Copies a list of strings.
pub(crate) fn clone_string_vec(v: &Vec<String>) -> (r: Vec<String>)
    ensures
        r.deep_view() == v.deep_view(),
{
    let mut r: Vec<String> = Vec::new();
    let mut i: usize = 0;
    while i < v.len()
        invariant
            i <= v.len(),
            r@.len() == i,
            forall|j: int| 0 <= j < i ==> r@[j]@ == #[trigger] v@[j]@,
        decreases v.len() - i,
    {
        let s = v[i].clone();
        assert(s@ == v@[i as int]@);
        r.push(s);
        i = i + 1;
    }
    assert forall|j: int| 0 <= j < v@.len() implies r.deep_view()[j] == v.deep_view()[j] by {
        assert(r@[j]@ == v@[j]@);
    }
    assert(r.deep_view() =~= v.deep_view());
    r
}

} // verus!
