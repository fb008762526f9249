//! The value codec: raw token strings decoded into typed values.
//!
//! The codec is used both at registration time, to validate default values
//! eagerly, and at parse time, to validate live tokens.

use vstd::prelude::*;

use crate::argument::DataType;

verus! {

/// A typed value decoded from one raw token.
///
/// The five kinds mirror [`DataType`], without the array flag: arrays are
/// ordered sequences of `ParsedArgument`, not a variant of it.
///
/// A `Float32` value holds the raw literal unchanged, so that the crate's
/// contracts never speak of floating-point arithmetic; the literal is
/// guaranteed to follow the standard float grammar and callers convert it
/// when they need the number itself.
#[derive(Debug, PartialEq)]
pub enum ParsedArgument {
    Int32(i32),
    Float32(String),
    String(String),
    Bool(bool),
    Path(String),
}

/// The mathematical shape of a [`ParsedArgument`]: strings become
/// sequences of characters.
pub ghost enum ParsedArgumentView {
    Int32(i32),
    Float32(Seq<char>),
    String(Seq<char>),
    Bool(bool),
    Path(Seq<char>),
}

impl View for ParsedArgument {
    type V = ParsedArgumentView;

    open spec fn view(&self) -> ParsedArgumentView {
        match self {
            ParsedArgument::Int32(v) => ParsedArgumentView::Int32(*v),
            ParsedArgument::Float32(v) => ParsedArgumentView::Float32(v@),
            ParsedArgument::String(v) => ParsedArgumentView::String(v@),
            ParsedArgument::Bool(v) => ParsedArgumentView::Bool(*v),
            ParsedArgument::Path(v) => ParsedArgumentView::Path(v@),
        }
    }
}

// ---------------------------------------------------------------------------
// Literal grammars, stated over index ranges of a character sequence.
// ---------------------------------------------------------------------------

/// `c` is an ASCII decimal digit.
pub open spec fn is_digit(c: char) -> bool {
    48 <= c as u32 && c as u32 <= 57
}

/// The numeric value of the digit `c`.
pub open spec fn digit_val(c: char) -> nat {
    (c as u32 - 48) as nat
}

/// Every character of `s` in `[from, to)` is a digit.
pub open spec fn all_digits_in(s: Seq<char>, from: int, to: int) -> bool {
    forall|i: int| from <= i < to ==> is_digit(#[trigger] s[i])
}

/// The number written by the digits of `s` in `[from, to)`, most significant
/// first.
pub open spec fn digits_val_in(s: Seq<char>, from: int, to: int) -> nat
    decreases to - from,
{
    if to <= from {
        0
    } else {
        digits_val_in(s, from, to - 1) * 10 + digit_val(s[to - 1])
    }
}

/// `s` starts with an explicit `+` or `-` sign.
pub open spec fn has_sign(s: Seq<char>) -> bool {
    s.len() >= 1 && (s[0] == '+' || s[0] == '-')
}

/// The index where the body of a signed literal starts.
pub open spec fn body_start(s: Seq<char>) -> int {
    if has_sign(s) {
        1
    } else {
        0
    }
}

/// `s` is an optionally signed run of one or more digits.
pub open spec fn is_int_literal(s: Seq<char>) -> bool {
    s.len() > body_start(s) && all_digits_in(s, body_start(s), s.len() as int)
}

/// The signed value of the integer literal `s`.
pub open spec fn int_literal_val(s: Seq<char>) -> int {
    if s.len() >= 1 && s[0] == '-' {
        -(digits_val_in(s, 1, s.len() as int) as int)
    } else {
        digits_val_in(s, body_start(s), s.len() as int) as int
    }
}

/// `s` is an integer literal whose value fits in an `i32`.
pub open spec fn is_i32_literal(s: Seq<char>) -> bool {
    is_int_literal(s) && i32::MIN <= int_literal_val(s) <= i32::MAX
}

/// `c` equals the ASCII lowercase letter `lower`, ignoring ASCII case.
pub open spec fn eq_ignore_ascii_case(c: char, lower: char) -> bool {
    c == lower || c as u32 + 32 == lower as u32
}

/// The characters of `s` in `[from, to)` spell `inf`, ignoring case.
pub open spec fn is_inf_in(s: Seq<char>, from: int, to: int) -> bool {
    &&& to - from == 3
    &&& eq_ignore_ascii_case(s[from], 'i')
    &&& eq_ignore_ascii_case(s[from + 1], 'n')
    &&& eq_ignore_ascii_case(s[from + 2], 'f')
}

/// The characters of `s` in `[from, to)` spell `infinity`, ignoring case.
pub open spec fn is_infinity_in(s: Seq<char>, from: int, to: int) -> bool {
    &&& to - from == 8
    &&& eq_ignore_ascii_case(s[from], 'i')
    &&& eq_ignore_ascii_case(s[from + 1], 'n')
    &&& eq_ignore_ascii_case(s[from + 2], 'f')
    &&& eq_ignore_ascii_case(s[from + 3], 'i')
    &&& eq_ignore_ascii_case(s[from + 4], 'n')
    &&& eq_ignore_ascii_case(s[from + 5], 'i')
    &&& eq_ignore_ascii_case(s[from + 6], 't')
    &&& eq_ignore_ascii_case(s[from + 7], 'y')
}

/// The characters of `s` in `[from, to)` spell `nan`, ignoring case.
pub open spec fn is_nan_in(s: Seq<char>, from: int, to: int) -> bool {
    &&& to - from == 3
    &&& eq_ignore_ascii_case(s[from], 'n')
    &&& eq_ignore_ascii_case(s[from + 1], 'a')
    &&& eq_ignore_ascii_case(s[from + 2], 'n')
}

/// The first index in `[from, to)` holding `e` or `E`.
pub open spec fn find_exp_in(s: Seq<char>, from: int, to: int) -> Option<int>
    decreases to - from,
{
    if from >= to {
        None
    } else if s[from] == 'e' || s[from] == 'E' {
        Some(from)
    } else {
        find_exp_in(s, from + 1, to)
    }
}

/// The first index in `[from, to)` holding `.`.
pub open spec fn find_dot_in(s: Seq<char>, from: int, to: int) -> Option<int>
    decreases to - from,
{
    if from >= to {
        None
    } else if s[from] == '.' {
        Some(from)
    } else {
        find_dot_in(s, from + 1, to)
    }
}

/// The characters of `s` in `[from, to)` form a float mantissa: digits,
/// optionally with one decimal point, and at least one digit in all.
pub open spec fn is_mantissa_in(s: Seq<char>, from: int, to: int) -> bool {
    match find_dot_in(s, from, to) {
        None => to - from > 0 && all_digits_in(s, from, to),
        Some(d) => {
            &&& all_digits_in(s, from, d)
            &&& all_digits_in(s, d + 1, to)
            &&& (d - from > 0 || to - (d + 1) > 0)
        },
    }
}

/// The characters of `s` in `[from, to)` form an exponent tail: an
/// optional sign and one or more digits.
pub open spec fn is_exp_tail_in(s: Seq<char>, from: int, to: int) -> bool {
    let body = if from < to && (s[from] == '+' || s[from] == '-') {
        from + 1
    } else {
        from
    };
    to - body > 0 && all_digits_in(s, body, to)
}

/// The characters of `s` in `[from, to)` form the body of a float literal
/// (everything after the optional leading sign).
pub open spec fn is_float_body_in(s: Seq<char>, from: int, to: int) -> bool {
    ||| is_inf_in(s, from, to)
    ||| is_infinity_in(s, from, to)
    ||| is_nan_in(s, from, to)
    ||| match find_exp_in(s, from, to) {
        None => is_mantissa_in(s, from, to),
        Some(x) => is_mantissa_in(s, from, x) && is_exp_tail_in(s, x + 1, to),
    }
}

/// `s` follows the standard float-literal grammar: an optional sign, then
/// `inf`, `infinity` or `nan` in any case, or a mantissa with an optional
/// exponent.
pub open spec fn is_float_literal(s: Seq<char>) -> bool {
    is_float_body_in(s, body_start(s), s.len() as int)
}

/// `s` is exactly the literal token `true` or `false`.
pub open spec fn bool_of_literal(s: Seq<char>) -> Option<bool> {
    if s == "true"@ {
        Some(true)
    } else if s == "false"@ {
        Some(false)
    } else {
        None
    }
}

// ---------------------------------------------------------------------------
// The codec itself.
// ---------------------------------------------------------------------------

/// What [`ParsedArgument::from_value`] returns: the decoded value for `value`
/// under `data_type`, or the message rejecting it.
pub open spec fn spec_from_value(value: Seq<char>, data_type: DataType) -> Result<
    ParsedArgumentView,
    Seq<char>,
> {
    match data_type {
        DataType::Int32(_) => if is_i32_literal(value) {
            Ok(ParsedArgumentView::Int32(int_literal_val(value) as i32))
        } else {
            Err("'"@ + value + "' is not a 32-bit integer"@)
        },
        DataType::Float32(_) => if is_float_literal(value) {
            Ok(ParsedArgumentView::Float32(value))
        } else {
            Err("'"@ + value + "' is not a 32-bit float"@)
        },
        DataType::String(_) => Ok(ParsedArgumentView::String(value)),
        DataType::Bool(_) => match bool_of_literal(value) {
            Some(b) => Ok(ParsedArgumentView::Bool(b)),
            None => Err("'"@ + value + "' is not a boolean"@),
        },
        DataType::Path(_) => Ok(ParsedArgumentView::Path(value)),
    }
}

/// `spec_from_value` succeeds on `value` under `data_type`.
pub open spec fn decodes(value: Seq<char>, data_type: DataType) -> bool {
    spec_from_value(value, data_type) is Ok
}

impl ParsedArgument {
    /// Decodes one raw token under the given data type.
    ///
    /// `Int32` and `Float32` follow the standard numeric literal rules
    /// (`Float32` is validated but kept as its literal); `Bool` accepts only
    /// the tokens `true` and `false`; `String` and `Path` accept any input
    /// unmodified.
    pub fn from_value(value: &str, data_type: DataType) -> (r: Result<Self, String>)
        ensures
            ({
                match r {
                    Ok(v) => spec_from_value(value@, data_type) == Ok::<
                        ParsedArgumentView,
                        Seq<char>,
                    >(v@),
                    Err(e) => spec_from_value(value@, data_type) == Err::<
                        ParsedArgumentView,
                        Seq<char>,
                    >(e@),
                }
            }),
    {
        match data_type {
            DataType::Int32(_) => match parse_i32(value) {
                Some(v) => Ok(ParsedArgument::Int32(v)),
                None => Err(quoted_message(value, "' is not a 32-bit integer")),
            },
            DataType::Float32(_) => if is_float_str(value) {
                Ok(ParsedArgument::Float32(value.to_owned()))
            } else {
                Err(quoted_message(value, "' is not a 32-bit float"))
            },
            DataType::String(_) => Ok(ParsedArgument::String(value.to_owned())),
            DataType::Bool(_) => if str_eq(value, "true") {
                Ok(ParsedArgument::Bool(true))
            } else if str_eq(value, "false") {
                Ok(ParsedArgument::Bool(false))
            } else {
                Err(quoted_message(value, "' is not a boolean"))
            },
            DataType::Path(_) => Ok(ParsedArgument::Path(value.to_owned())),
        }
    }
}

/// Compares two string slices by their characters.
pub fn str_eq(a: &str, b: &str) -> (r: bool)
    ensures
        r == (a@ == b@),
{
    let sa = String::from_str(a);
    let sb = String::from_str(b);
    sa == sb
}

/// Builds the message `'<subject><rest>` used by the codec's rejections.
fn quoted_message(subject: &str, rest: &str) -> (r: String)
    ensures
        r@ == "'"@ + subject@ + rest@,
{
    let mut m = String::from_str("'");
    m.append(subject);
    m.append(rest);
    m
}

/// Decodes an optionally signed decimal literal as an `i32`, or reports
/// that `s` is not one.
fn parse_i32(s: &str) -> (r: Option<i32>)
    ensures
        is_i32_literal(s@) <==> r is Some,
        r is Some ==> r->0 == int_literal_val(s@),
{
    let n = s.unicode_len();
    if n == 0 {
        return None;
    }
    let first = s.get_char(0);
    let neg = first as u32 == 45;
    let start: usize = if neg || first as u32 == 43 {
        1
    } else {
        0
    };
    assert(start == body_start(s@));
    if start >= n {
        return None;
    }
    let mut i = start;
    let mut acc: u64 = 0;
    let mut too_big = false;
    while i < n
        invariant
            start <= i <= n,
            n == s@.len(),
            start == body_start(s@),
            all_digits_in(s@, start as int, i as int),
            !too_big ==> acc == digits_val_in(s@, start as int, i as int) && acc <= 2147483648,
            too_big ==> digits_val_in(s@, start as int, i as int) > 2147483648,
        decreases n - i,
    {
        let c = s.get_char(i);
        let cu = c as u32;
        if cu < 48 || cu > 57 {
            return None;
        }
        let d = (cu - 48) as u64;
        if too_big {
            proof {
                lemma_digits_val_grows(s@, start as int, i as int, 2147483648);
            }
        } else {
            let next = acc * 10 + d;
            if next > 2147483648 {
                too_big = true;
            } else {
                acc = next;
            }
        }
        i = i + 1;
    }
    if too_big {
        proof {
            lemma_big_magnitude_not_i32(s@);
        }
        return None;
    }
    if !neg && acc == 2147483648 {
        return None;
    }
    if neg {
        Some((-(acc as i64)) as i32)
    } else {
        Some(acc as i32)
    }
}

/// A number greater than `bound` stays greater when one more digit is
/// appended.
proof fn lemma_digits_val_grows(s: Seq<char>, from: int, to: int, bound: nat)
    requires
        from <= to,
        digits_val_in(s, from, to) > bound,
    ensures
        digits_val_in(s, from, to + 1) > bound,
{
    assert(digits_val_in(s, from, to + 1) == digits_val_in(s, from, to) * 10 + digit_val(
        s[to],
    ));
    assert(digits_val_in(s, from, to) * 10 >= digits_val_in(s, from, to)) by (nonlinear_arith);
}

/// An integer literal whose magnitude exceeds `2147483648` is out of the
/// `i32` range.
proof fn lemma_big_magnitude_not_i32(s: Seq<char>)
    requires
        digits_val_in(s, body_start(s), s.len() as int) > 2147483648,
    ensures
        !is_i32_literal(s),
{
}

/// Checks `s` against the standard float-literal grammar.
fn is_float_str(s: &str) -> (r: bool)
    ensures
        r == is_float_literal(s@),
{
    let n = s.unicode_len();
    if n == 0 {
        return false;
    }
    let first = s.get_char(0);
    let start: usize = if first as u32 == 45 || first as u32 == 43 {
        1
    } else {
        0
    };
    assert(start == body_start(s@));
    if is_word_ci(s, start, n, "inf") || is_word_ci(s, start, n, "infinity") || is_word_ci(
        s,
        start,
        n,
        "nan",
    ) {
        proof {
            reveal_strlit("inf");
            reveal_strlit("infinity");
            reveal_strlit("nan");
        }
        return true;
    }
    proof {
        reveal_strlit("inf");
        reveal_strlit("infinity");
        reveal_strlit("nan");
    }
    let exp = find_exp_str(s, start, n);
    let mantissa_end = match exp {
        Some(x) => x,
        None => n,
    };
    if !is_mantissa_str(s, start, mantissa_end) {
        return false;
    }
    match exp {
        Some(x) => is_exp_tail_str(s, x + 1, n),
        None => true,
    }
}

/// Compares the characters of `s` in `[from, to)` with the ASCII lowercase
/// word `w`, ignoring ASCII case.
fn is_word_ci(s: &str, from: usize, to: usize, w: &str) -> (r: bool)
    requires
        to <= s@.len(),
    ensures
        r == (to - from == w@.len() && (forall|i: int|
            from <= i < to ==> eq_ignore_ascii_case(#[trigger] s@[i], w@[i - from]))),
{
    let wn = w.unicode_len();
    if to < from || to - from != wn {
        return false;
    }
    let mut i = from;
    while i < to
        invariant
            from <= i <= to,
            to <= s@.len(),
            to - from == w@.len(),
            forall|j: int| from <= j < i ==> eq_ignore_ascii_case(#[trigger] s@[j], w@[j - from]),
        decreases to - i,
    {
        let c = s.get_char(i) as u32;
        let l = w.get_char(i - from) as u32;
        if !(c == l || c + 32 == l) {
            return false;
        }
        i = i + 1;
    }
    true
}

/// Finds the first `e` or `E` of `s` in `[from, to)`.
fn find_exp_str(s: &str, from: usize, to: usize) -> (r: Option<usize>)
    requires
        to <= s@.len(),
    ensures
        match r {
            Some(x) => find_exp_in(s@, from as int, to as int) == Some(x as int) && from <= x < to,
            None => find_exp_in(s@, from as int, to as int) is None,
        },
{
    if to <= from {
        return None;
    }
    let mut i = from;
    while i < to
        invariant
            from <= i <= to,
            to <= s@.len(),
            find_exp_in(s@, from as int, to as int) == find_exp_in(s@, i as int, to as int),
        decreases to - i,
    {
        let c = s.get_char(i) as u32;
        if c == 101 || c == 69 {
            assert(s@[i as int] == 'e' || s@[i as int] == 'E');
            return Some(i);
        }
        assert(!(s@[i as int] == 'e' || s@[i as int] == 'E'));
        i = i + 1;
    }
    None
}

/// Checks that the characters of `s` in `[from, to)` form a mantissa.
fn is_mantissa_str(s: &str, from: usize, to: usize) -> (r: bool)
    requires
        to <= s@.len(),
        from <= to,
    ensures
        r == is_mantissa_in(s@, from as int, to as int),
{
    let mut dot: Option<usize> = None;
    let mut i = from;
    while i < to
        invariant
            from <= i <= to,
            to <= s@.len(),
            match dot {
                Some(d) => find_dot_in(s@, from as int, to as int) == Some(d as int) && from <= d
                    < i,
                None => find_dot_in(s@, from as int, to as int) == find_dot_in(
                    s@,
                    i as int,
                    to as int,
                ),
            },
        decreases to - i,
    {
        let c = s.get_char(i) as u32;
        if c == 46 && dot.is_none() {
            assert(s@[i as int] == '.');
            dot = Some(i);
        } else if dot.is_none() {
            assert(s@[i as int] != '.');
        }
        i = i + 1;
    }
    match dot {
        Some(d) => {
            let before = all_digits_str(s, from, d);
            let after = all_digits_str(s, d + 1, to);
            before && after && (d > from || to > d + 1)
        },
        None => to > from && all_digits_str(s, from, to),
    }
}

/// Checks that the characters of `s` in `[from, to)` form an exponent tail.
fn is_exp_tail_str(s: &str, from: usize, to: usize) -> (r: bool)
    requires
        to <= s@.len(),
        from <= to,
    ensures
        r == is_exp_tail_in(s@, from as int, to as int),
{
    let body = if from < to {
        let c = s.get_char(from) as u32;
        if c == 43 || c == 45 {
            assert(s@[from as int] == '+' || s@[from as int] == '-');
            from + 1
        } else {
            assert(s@[from as int] != '+' && s@[from as int] != '-');
            from
        }
    } else {
        from
    };
    to > body && all_digits_str(s, body, to)
}

/// Checks that every character of `s` in `[from, to)` is a digit.
fn all_digits_str(s: &str, from: usize, to: usize) -> (r: bool)
    requires
        to <= s@.len(),
    ensures
        r == all_digits_in(s@, from as int, to as int),
{
    if to <= from {
        return true;
    }
    let mut i = from;
    while i < to
        invariant
            from <= i <= to,
            to <= s@.len(),
            all_digits_in(s@, from as int, i as int),
        decreases to - i,
    {
        let c = s.get_char(i) as u32;
        if c < 48 || c > 57 {
            return false;
        }
        i = i + 1;
    }
    true
}

} // verus!
