//! The typed output of a parse: scalar values, array values, at most one
//! selected sub-command result, and the accumulated error messages.

use vstd::prelude::*;

use vstd::hash_map::StringHashMap;

use crate::parsed::ParsedArgument;
use crate::parsed::ParsedArgumentView;

verus! {

/// The result a selected sub-command produced, stored under its name.
pub struct ChildResult {
    pub name: String,
    pub result: ParseResult,
}

/// What one parse produced.
///
/// A destination key appears in at most one of the scalar map and the
/// array map; which one is decided by the matched argument's arity.
pub struct ParseResult {
    pub single_values: StringHashMap<ParsedArgument>,
    pub array_values: StringHashMap<Vec<ParsedArgument>>,
    pub child: Option<Box<ChildResult>>,
    pub errors: Vec<String>,
}

/// The mathematical shape of a [`ParseResult`].
#[verifier::ext_equal]
pub ghost struct ParseResultView {
    pub singles: Map<Seq<char>, ParsedArgumentView>,
    pub arrays: Map<Seq<char>, Seq<ParsedArgumentView>>,
    pub child: Option<(Seq<char>, Box<ParseResultView>)>,
    pub errors: Seq<Seq<char>>,
}

impl View for ParseResult {
    type V = ParseResultView;

    open spec fn view(&self) -> ParseResultView
        decreases self,
    {
        ParseResultView {
            singles: Map::new(
                |k: Seq<char>| self.single_values@.contains_key(k),
                |k: Seq<char>| self.single_values@[k]@,
            ),
            arrays: Map::new(
                |k: Seq<char>| self.array_values@.contains_key(k),
                |k: Seq<char>| self.array_values@[k]@.map_values(|a: ParsedArgument| a@),
            ),
            child: match &self.child {
                Some(c) => Some((c.name@, Box::new(c.result@))),
                None => None,
            },
            errors: self.errors.deep_view(),
        }
    }
}

impl ParseResultView {
    /// A result holding nothing at all.
    pub open spec fn empty() -> ParseResultView {
        ParseResultView {
            singles: Map::empty(),
            arrays: Map::empty(),
            child: None,
            errors: Seq::empty(),
        }
    }

    /// Some value, scalar or array, is stored under `destination`.
    pub open spec fn contains_dest(self, destination: Seq<char>) -> bool {
        self.singles.contains_key(destination) || self.arrays.contains_key(destination)
    }

    /// The result with one more error message.
    pub open spec fn with_error(self, message: Seq<char>) -> ParseResultView {
        ParseResultView { errors: self.errors.push(message), ..self }
    }

    /// The result with `value` stored as the scalar of `destination`; a
    /// destination that already holds a scalar is an internal
    /// inconsistency and is reported instead of overwritten.
    pub open spec fn with_single(
        self,
        destination: Seq<char>,
        value: ParsedArgumentView,
    ) -> ParseResultView {
        if self.singles.contains_key(destination) {
            self.with_error(crate::error::spec_duplicate_insertion(destination))
        } else {
            ParseResultView { singles: self.singles.insert(destination, value), ..self }
        }
    }

    /// The result with `value` appended to the array of `destination`.
    pub open spec fn with_array_pushed(
        self,
        destination: Seq<char>,
        value: ParsedArgumentView,
    ) -> ParseResultView {
        let old_values = if self.arrays.contains_key(destination) {
            self.arrays[destination]
        } else {
            Seq::empty()
        };
        ParseResultView { arrays: self.arrays.insert(destination, old_values.push(value)), ..self }
    }
}

impl ParseResult {
    /// Creates an empty result.
    pub fn new() -> (r: Self)
        ensures
            r@ == ParseResultView::empty(),
    {
        let r = ParseResult {
            single_values: StringHashMap::new(),
            array_values: StringHashMap::new(),
            child: None,
            errors: Vec::new(),
        };
        proof {
            assert(r@ =~~= ParseResultView::empty());
        }
        r
    }

    /// Whether a scalar value is stored under `key`.
    pub fn has_single(&self, key: &str) -> (r: bool)
        ensures
            r == self@.singles.contains_key(key@),
    {
        self.single_values.contains_key(key)
    }

    /// Whether an array is stored under `key`.
    pub fn has_array(&self, key: &str) -> (r: bool)
        ensures
            r == self@.arrays.contains_key(key@),
    {
        self.array_values.contains_key(key)
    }

    /// Whether anything is stored under `key`.
    pub fn has(&self, key: &str) -> (r: bool)
        ensures
            r == self@.contains_dest(key@),
    {
        self.has_single(key) || self.has_array(key)
    }

    /// The scalar value stored under `key`, if one is.
    pub fn get_single(&self, key: &str) -> (r: Option<&ParsedArgument>)
        ensures
            match r {
                Some(v) => self@.singles.contains_key(key@) && v@ == self@.singles[key@],
                None => !self@.singles.contains_key(key@),
            },
    {
        self.single_values.get(key)
    }

    /// The array stored under `key`, if one is.
    pub fn get_array(&self, key: &str) -> (r: Option<&Vec<ParsedArgument>>)
        ensures
            match r {
                Some(v) => self@.arrays.contains_key(key@) && v@.map_values(
                    |a: ParsedArgument| a@,
                ) == self@.arrays[key@],
                None => !self@.arrays.contains_key(key@),
            },
    {
        self.array_values.get(key)
    }

    /// The selected sub-command's name and result, if one was selected.
    pub fn get_child(&self) -> (r: Option<&ChildResult>)
        ensures
            match r {
                Some(c) => self@.child == Some((c.name@, Box::new(c.result@))),
                None => self@.child is None,
            },
    {
        match &self.child {
            Some(c) => Some(&**c),
            None => None,
        }
    }

    /// The accumulated error messages.
    pub fn errors(&self) -> (r: &Vec<String>)
        ensures
            r.deep_view() == self@.errors,
    {
        &self.errors
    }

    /// Whether any error was recorded.
    pub fn has_errors(&self) -> (r: bool)
        ensures
            r == (self@.errors.len() > 0),
    {
        self.errors.len() > 0
    }

    /// Records one error message.
    pub(crate) fn add_error(&mut self, message: String)
        ensures
            final(self)@ == old(self)@.with_error(message@),
    {
        self.errors.push(message);
        proof {
            assert(self@ =~~= old(self)@.with_error(message@));
        }
    }

    /// Stores `value` as the scalar of `destination`, or records the
    /// internal inconsistency when the destination already holds one.
    pub(crate) fn add_single_value(&mut self, destination: &str, value: ParsedArgument)
        ensures
            final(self)@ == old(self)@.with_single(destination@, value@),
    {
        if self.single_values.contains_key(destination) {
            let m = crate::error::duplicate_insertion(destination);
            self.add_error(m);
        } else {
            self.single_values.insert(String::from_str(destination), value);
            proof {
                assert(self@ =~~= old(self)@.with_single(destination@, value@));
            }
        }
    }

    /// Appends `value` to the array of `destination`, creating it when it
    /// is missing.
    pub(crate) fn add_array_value(&mut self, destination: &str, value: ParsedArgument)
        ensures
            final(self)@ == old(self)@.with_array_pushed(destination@, value@),
    {
        let mut values: Vec<ParsedArgument> = match self.array_values.get(destination) {
            Some(v) => clone_parsed_vec(v),
            None => Vec::new(),
        };
        values.push(value);
        self.array_values.insert(String::from_str(destination), values);
        proof {
            assert(self@ =~~= old(self)@.with_array_pushed(destination@, value@));
        }
    }
}

/// Copies one parsed value.
fn clone_parsed(value: &ParsedArgument) -> (r: ParsedArgument)
    ensures
        r@ == value@,
{
    match value {
        ParsedArgument::Int32(v) => ParsedArgument::Int32(*v),
        ParsedArgument::Float32(v) => ParsedArgument::Float32(crate::unparsed::clone_string(v)),
        ParsedArgument::String(v) => ParsedArgument::String(crate::unparsed::clone_string(v)),
        ParsedArgument::Bool(v) => ParsedArgument::Bool(*v),
        ParsedArgument::Path(v) => ParsedArgument::Path(crate::unparsed::clone_string(v)),
    }
}

/// Copies a list of parsed values.
fn clone_parsed_vec(values: &Vec<ParsedArgument>) -> (r: Vec<ParsedArgument>)
    ensures
        r@.map_values(|a: ParsedArgument| a@) == values@.map_values(|a: ParsedArgument| a@),
{
    let mut r: Vec<ParsedArgument> = Vec::new();
    let mut i: usize = 0;
    while i < values.len()
        invariant
            i <= values.len(),
            r@.len() == i,
            forall|j: int| 0 <= j < i ==> r@[j]@ == #[trigger] values@[j]@,
        decreases values.len() - i,
    {
        r.push(clone_parsed(&values[i]));
        i = i + 1;
    }
    proof {
        assert(r@.map_values(|a: ParsedArgument| a@) =~= values@.map_values(
            |a: ParsedArgument| a@,
        ));
    }
    r
}

} // verus!
