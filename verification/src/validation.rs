//! The grammar of option names.
//!
//! A short name is one alphanumeric character; a long name is one or more
//! characters from {alphanumeric, hyphen} starting with an alphanumeric
//! character.  A combined specification string sets one or both: `-x` alone,
//! `--long-name` alone, or `-x, --long-name` (comma-separated, with optional
//! spaces around the comma).

use vstd::prelude::*;

verus! {

/// `c` is an ASCII letter or digit.
pub open spec fn is_alnum(c: char) -> bool {
    ||| 48 <= c as u32 <= 57
    ||| 65 <= c as u32 <= 90
    ||| 97 <= c as u32 <= 122
}

/// `s` is a well-formed short name: exactly one alphanumeric character.
pub open spec fn is_valid_short_name(s: Seq<char>) -> bool {
    s.len() == 1 && is_alnum(s[0])
}

/// The characters of `s` in `[from, to)` are a well-formed long name:
/// non-empty, alphanumeric or hyphen throughout, alphanumeric first.
pub open spec fn is_long_name_in(s: Seq<char>, from: int, to: int) -> bool {
    &&& to - from >= 1
    &&& is_alnum(s[from])
    &&& forall|i: int| from <= i < to ==> is_alnum(#[trigger] s[i]) || s[i] == '-'
}

/// `s` is a well-formed long name.
pub open spec fn is_valid_long_name(s: Seq<char>) -> bool {
    is_long_name_in(s, 0, s.len() as int)
}

/// The first index at or after `from` whose character is not a space.
pub open spec fn skip_spaces(s: Seq<char>, from: int) -> int
    decreases s.len() - from,
{
    if from < 0 || from >= s.len() || s[from] != ' ' {
        from
    } else {
        skip_spaces(s, from + 1)
    }
}

/// `s` is the form `-X`: a dash and one alphanumeric character.
pub open spec fn is_short_form(s: Seq<char>) -> bool {
    s.len() == 2 && s[0] == '-' && is_alnum(s[1])
}

/// `s` is the form `--long-name`.
pub open spec fn is_long_form(s: Seq<char>) -> bool {
    s.len() >= 3 && s[0] == '-' && s[1] == '-' && is_long_name_in(s, 2, s.len() as int)
}

/// `s` is the form `-X, --long-name`, with optional spaces around the comma.
pub open spec fn is_both_form(s: Seq<char>) -> bool {
    s.len() >= 2 && s[0] == '-' && is_alnum(s[1]) && {
        let comma = skip_spaces(s, 2);
        comma < s.len() && s[comma] == ',' && {
            let dashes = skip_spaces(s, comma + 1);
            &&& dashes + 2 <= s.len()
            &&& s[dashes] == '-'
            &&& s[dashes + 1] == '-'
            &&& is_long_name_in(s, dashes + 2, s.len() as int)
        }
    }
}

/// `s` is one of the three accepted option name forms.
pub open spec fn is_valid_names(s: Seq<char>) -> bool {
    is_both_form(s) || is_short_form(s) || is_long_form(s)
}

/// What `extract_names` returns for `s`: the short and long name named by a
/// well-formed specification string, and nothing for a malformed one.
pub open spec fn spec_extract_names(s: Seq<char>) -> (Option<Seq<char>>, Option<Seq<char>>) {
    if is_both_form(s) {
        let dashes = skip_spaces(s, skip_spaces(s, 2) + 1);
        (Some(s.subrange(1, 2)), Some(s.subrange(dashes + 2, s.len() as int)))
    } else if is_short_form(s) {
        (Some(s.subrange(1, 2)), None)
    } else if is_long_form(s) {
        (None, Some(s.subrange(2, s.len() as int)))
    } else {
        (None, None)
    }
}

/// The character sequences behind an optional string.
pub open spec fn opt_view(o: Option<String>) -> Option<Seq<char>> {
    match o {
        Some(s) => Some(s@),
        None => None,
    }
}

/// Checks that `c` is an ASCII letter or digit.
pub(crate) fn alnum(c: char) -> (r: bool)
    ensures
        r == is_alnum(c),
{
    let u = c as u32;
    (48 <= u && u <= 57) || (65 <= u && u <= 90) || (97 <= u && u <= 122)
}

/// Checks the characters of `s` in `[from, to)` against the long name
/// grammar.
fn long_name_in(s: &str, from: usize, to: usize) -> (r: bool)
    requires
        to <= s@.len(),
    ensures
        r == is_long_name_in(s@, from as int, to as int),
{
    if to <= from {
        return false;
    }
    if !alnum(s.get_char(from)) {
        return false;
    }
    let mut i = from;
    while i < to
        invariant
            from <= i <= to,
            to <= s@.len(),
            is_alnum(s@[from as int]),
            forall|j: int| from <= j < i ==> is_alnum(#[trigger] s@[j]) || s@[j] == '-',
        decreases to - i,
    {
        let c = s.get_char(i);
        if !alnum(c) && c as u32 != 45 {
            assert(!(is_alnum(s@[i as int]) || s@[i as int] == '-'));
            return false;
        }
        assert(is_alnum(s@[i as int]) || s@[i as int] == '-');
        i = i + 1;
    }
    true
}

/// Finds the first non-space character of `s` at or after `from`.
fn skip_spaces_str(s: &str, from: usize) -> (r: usize)
    requires
        from <= s@.len(),
    ensures
        r == skip_spaces(s@, from as int),
        from <= r <= s@.len(),
{
    let n = s.unicode_len();
    let mut i = from;
    while i < n
        invariant
            from <= i <= n,
            n == s@.len(),
            skip_spaces(s@, from as int) == skip_spaces(s@, i as int),
        decreases n - i,
    {
        let c = s.get_char(i);
        if c as u32 != 32 {
            assert(s@[i as int] != ' ');
            return i;
        }
        assert(s@[i as int] == ' ');
        i = i + 1;
    }
    n
}

/// Extracts the short and long names of an option argument from its
/// specification string.
///
/// Returns `(None, None)` if `names` is invalidly formatted.
pub(crate) fn extract_names(names: &str) -> (r: (Option<String>, Option<String>))
    ensures
        (opt_view(r.0), opt_view(r.1)) == spec_extract_names(names@),
{
    let n = s_len(names);
    if n < 2 {
        return (None, None);
    }
    let c0 = names.get_char(0);
    if c0 as u32 != 45 {
        assert(names@[0] != '-');
        return (None, None);
    }
    assert(names@[0] == '-');
    let c1 = names.get_char(1);
    if alnum(c1) {
        // `-X` alone, or `-X, --long`.
        if n == 2 {
            let short = names.substring_char(1, 2).to_owned();
            return (Some(short), None);
        }
        let comma = skip_spaces_str(names, 2);
        if comma >= n || names.get_char(comma) as u32 != 44 {
            assert(comma < names@.len() ==> names@[comma as int] != ',');
            return (None, None);
        }
        assert(names@[comma as int] == ',');
        let dashes = skip_spaces_str(names, comma + 1);
        if n - dashes < 2 {
            return (None, None);
        }
        if names.get_char(dashes) as u32 != 45 || names.get_char(dashes + 1) as u32 != 45 {
            assert(!(names@[dashes as int] == '-' && names@[dashes as int + 1] == '-'));
            return (None, None);
        }
        assert(names@[dashes as int] == '-' && names@[dashes as int + 1] == '-');
        if !long_name_in(names, dashes + 2, n) {
            return (None, None);
        }
        let short = names.substring_char(1, 2).to_owned();
        let long = names.substring_char(dashes + 2, n).to_owned();
        (Some(short), Some(long))
    } else if c1 as u32 == 45 {
        // `--long-name` alone.
        assert(names@[1] == '-');
        if n >= 3 && long_name_in(names, 2, n) {
            let long = names.substring_char(2, n).to_owned();
            (None, Some(long))
        } else {
            (None, None)
        }
    } else {
        assert(!is_alnum(names@[1]) && names@[1] != '-');
        (None, None)
    }
}

/// Checks `s` against the short name grammar.
pub(crate) fn short_name_ok(s: &str) -> (r: bool)
    ensures
        r == is_valid_short_name(s@),
{
    s.unicode_len() == 1 && alnum(s.get_char(0))
}

/// Checks `s` against the long name grammar.
pub(crate) fn long_name_ok(s: &str) -> (r: bool)
    ensures
        r == is_valid_long_name(s@),
{
    let n = s.unicode_len();
    long_name_in(s, 0, n)
}

/// The character count of `s`.
fn s_len(s: &str) -> (r: usize)
    ensures
        r == s@.len(),
{
    s.unicode_len()
}

/// A quick sanity check on a separately supplied short name: it must not
/// itself start with a dash.
pub fn validate_short(short: Option<&str>) -> (r: bool)
    ensures
        r == match short {
            None => true,
            Some(v) => !(v@.len() >= 1 && v@[0] == '-'),
        },
{
    match short {
        None => true,
        Some(val) => {
            let n = val.unicode_len();
            if n == 0 {
                true
            } else {
                let c = val.get_char(0);
                c as u32 != 45
            }
        },
    }
}

/// A quick sanity check on a separately supplied long name: it must not
/// start with a double dash of its own.
pub fn validate_long(long: Option<&str>) -> (r: bool)
    ensures
        r == match long {
            None => true,
            Some(v) => !(v@.len() >= 2 && v@[0] == '-' && v@[1] == '-'),
        },
{
    match long {
        None => true,
        Some(val) => {
            let n = val.unicode_len();
            if n < 2 {
                true
            } else {
                let c0 = val.get_char(0);
                let c1 = val.get_char(1);
                !(c0 as u32 == 45 && c1 as u32 == 45)
            }
        },
    }
}

} // verus!
