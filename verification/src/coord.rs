//! Lengths and offsets given either in pixels or in percent of the image size.
use vstd::prelude::*;
use crate::decimal::{Decimal, FloatLiteral, parse_float, spec_parse_float};
use crate::text::{
    all_digits,
    bounded_digits,
    chars_of,
    digit,
    digit_value,
    digits_value,
    is_white_space,
    parse_i32,
    spec_parse_i32,
    trim,
    trimmed,
};

verus! {

/// A length or offset: whole pixels, or a percentage of the image's side.
#[derive(Clone, Copy, Debug, PartialEq, Eq, Structural)]
pub enum Coord {
    Px(i32),
    Percent(Decimal),
}

/// Why a coordinate could not be read.
#[derive(Clone, Copy, Debug, PartialEq, Eq, Structural)]
pub enum CoordError {
    /// The text holds an `e` or `E`.
    ScientificNotation,
    /// Nothing stands before `%`.
    EmptyFloat,
    /// The text before `%` is no floating-point literal.
    InvalidFloat,
    /// The text before `%` is an infinity, a NaN, or too large for `f32`.
    NotFinite,
    /// The pixel count is empty.
    EmptyInt,
    /// The pixel count holds a character that is no digit (or only a sign).
    InvalidDigit,
    /// The pixel count is above `i32::MAX`.
    PosOverflow,
    /// The pixel count is below `i32::MIN`.
    NegOverflow,
}

/// The message of a coordinate error.
pub open spec fn coord_error_message(e: CoordError) -> Seq<char> {
    match e {
        CoordError::ScientificNotation => "Scientific notation not allowed"@,
        CoordError::EmptyFloat => "cannot parse float from empty string"@,
        CoordError::InvalidFloat => "invalid float literal"@,
        CoordError::NotFinite => "Should be a finite number"@,
        CoordError::EmptyInt => "cannot parse integer from empty string"@,
        CoordError::InvalidDigit => "invalid digit found in string"@,
        CoordError::PosOverflow => "number too large to fit in target type"@,
        CoordError::NegOverflow => "number too small to fit in target type"@,
    }
}

impl CoordError {
    /// The error message.
    pub fn to_string(&self) -> (r: String)
        ensures
            r@ == coord_error_message(*self),
    {
        match self {
            CoordError::ScientificNotation => String::from_str("Scientific notation not allowed"),
            CoordError::EmptyFloat => String::from_str("cannot parse float from empty string"),
            CoordError::InvalidFloat => String::from_str("invalid float literal"),
            CoordError::NotFinite => String::from_str("Should be a finite number"),
            CoordError::EmptyInt => String::from_str("cannot parse integer from empty string"),
            CoordError::InvalidDigit => String::from_str("invalid digit found in string"),
            CoordError::PosOverflow => String::from_str("number too large to fit in target type"),
            CoordError::NegOverflow => String::from_str("number too small to fit in target type"),
        }
    }
}

/// How many decimal digits `s` starts with.
pub open spec fn digit_run(s: Seq<char>) -> nat
    decreases s.len(),
{
    if s.len() > 0 && digit_value(s[0], 10) is Some {
        1 + digit_run(s.drop_first())
    } else {
        0
    }
}

/// Why `i32::from_str` refuses `t`, as it finds out scanning left to right: an
/// empty text; a sign alone; the value of the leading digits already out of
/// range; else a character that is no digit.
pub open spec fn int_error(t: Seq<char>) -> CoordError {
    let signed = t.len() > 0 && (t[0] == '+' || t[0] == '-');
    let negative = t.len() > 0 && t[0] == '-';
    let digits = if signed { t.drop_first() } else { t };
    let v = digits_value(digits.take(digit_run(digits) as int), 10);
    if t.len() == 0 {
        CoordError::EmptyInt
    } else if digits.len() == 0 {
        CoordError::InvalidDigit
    } else if negative && v > 0x8000_0000 {
        CoordError::NegOverflow
    } else if !negative && v > 0x7fff_ffff {
        CoordError::PosOverflow
    } else {
        CoordError::InvalidDigit
    }
}

/// A pixel count read as an `i32` literal.
pub open spec fn px_result(s: Seq<char>) -> Result<Coord, CoordError> {
    match spec_parse_i32(s) {
        Some(v) => Ok(Coord::Px(v)),
        None => Err(int_error(s)),
    }
}

/// A run of `k` digits, ended by the text or by a non-digit, is the digit run.
proof fn lemma_digit_run(s: Seq<char>, k: int)
    requires
        0 <= k <= s.len(),
        forall|j: int| 0 <= j < k ==> (#[trigger] digit_value(s[j], 10)) is Some,
        k == s.len() || digit_value(s[k], 10) is None,
    ensures
        digit_run(s) == k,
    decreases k,
{
    if k > 0 {
        assert forall|j: int| 0 <= j < k - 1 implies (#[trigger] digit_value(
            s.drop_first()[j],
            10,
        )) is Some by {
            assert(s.drop_first()[j] == s[j + 1]);
        }
        if k < s.len() {
            assert(s.drop_first()[k - 1] == s[k]);
        }
        lemma_digit_run(s.drop_first(), k - 1);
    }
}

/// Why the characters `t`, which are no `i32` literal, are refused.
fn int_error_of(t: &[char]) -> (e: CoordError)
    ensures
        e == int_error(t@),
{
    let n = t.len();
    if n == 0 {
        return CoordError::EmptyInt;
    }
    let signed = t[0] == '+' || t[0] == '-';
    let negative = t[0] == '-';
    let start: usize = if signed { 1 } else { 0 };
    let ghost digits = t@.subrange(start as int, n as int);
    assert(digits =~= (if signed { t@.drop_first() } else { t@ }));
    if start == n {
        return CoordError::InvalidDigit;
    }
    let mut k: usize = start;
    while k < n && digit(t[k], 10).is_some()
        invariant
            start <= k <= n == t@.len(),
            digits == t@.subrange(start as int, n as int),
            forall|j: int| 0 <= j < k - start ==> (#[trigger] digit_value(digits[j], 10)) is Some,
        decreases n - k,
    {
        assert(digits[k - start] == t@[k as int]);
        k = k + 1;
    }
    proof {
        if k < n {
            assert(digits[k - start] == t@[k as int]);
        }
        lemma_digit_run(digits, k - start);
        assert(t@.subrange(start as int, k as int) =~= digits.take(k - start));
    }
    let limit: u64 = if negative { 0x8000_0000 } else { 0x7fff_ffff };
    match bounded_digits(t, start, k, 10, limit) {
        Some(_) => CoordError::InvalidDigit,
        None => {
            assert(all_digits(t@.subrange(start as int, k as int), 10));
            if negative {
                CoordError::NegOverflow
            } else {
                CoordError::PosOverflow
            }
        },
    }
}

/// How a coordinate is read: surrounding white space is ignored; an `e` or `E`
/// is refused; a trailing `%` makes a percentage of any finite `f32` literal;
/// a trailing `px`, or no suffix, makes a pixel count.
pub open spec fn spec_parse_coord(s: Seq<char>) -> Result<Coord, CoordError> {
    let t = trim(s);
    if t.contains('e') || t.contains('E') {
        Err(CoordError::ScientificNotation)
    } else if t.len() >= 1 && t.last() == '%' {
        match spec_parse_float(t.drop_last()) {
            FloatLiteral::Finite(d) => Ok(Coord::Percent(d)),
            FloatLiteral::NonFinite => Err(CoordError::NotFinite),
            FloatLiteral::Invalid => if t.len() == 1 {
                Err(CoordError::EmptyFloat)
            } else {
                Err(CoordError::InvalidFloat)
            },
        }
    } else if t.len() >= 2 && t[t.len() - 2] == 'p' && t.last() == 'x' {
        px_result(t.take(t.len() - 2))
    } else {
        px_result(t)
    }
}

impl Coord {
    /// Reads a coordinate such as `42`, `-17px` or `12.5%`.
    pub fn parse(s: &str) -> (r: Result<Coord, CoordError>)
        ensures
            r == spec_parse_coord(s@),
    {
        let cs = chars_of(s);
        let t = trimmed(&cs);
        let n = t.len();
        let mut i: usize = 0;
        while i < n
            invariant
                n == t@.len(),
                t@ == trim(s@),
                i <= n,
                forall|j: int| 0 <= j < i ==> t@[j] != 'e' && t@[j] != 'E',
            decreases n - i,
        {
            if t[i] == 'e' || t[i] == 'E' {
                assert(t@.contains(t@[i as int]));
                return Err(CoordError::ScientificNotation);
            }
            i = i + 1;
        }
        if n >= 1 && t[n - 1] == '%' {
            let body = slice_prefix(&t, n - 1);
            assert(body@ =~= t@.drop_last());
            match parse_float(&body) {
                FloatLiteral::Finite(d) => Ok(Coord::Percent(d)),
                FloatLiteral::NonFinite => Err(CoordError::NotFinite),
                FloatLiteral::Invalid => if n == 1 {
                    Err(CoordError::EmptyFloat)
                } else {
                    Err(CoordError::InvalidFloat)
                },
            }
        } else if n >= 2 && t[n - 2] == 'p' && t[n - 1] == 'x' {
            let body = slice_prefix(&t, n - 2);
            assert(body@ =~= t@.take(n - 2));
            match parse_i32(&body) {
                Some(v) => Ok(Coord::Px(v)),
                None => Err(int_error_of(&body)),
            }
        } else {
            match parse_i32(&t) {
                Some(v) => Ok(Coord::Px(v)),
                None => Err(int_error_of(&t)),
            }
        }
    }

    /// Reads an optional coordinate; `None` stays `None`.
    pub fn parse_opt(s: Option<&str>) -> (r: Result<Option<Coord>, CoordError>)
        ensures
            r == (match s {
                Some(v) => match spec_parse_coord(v@) {
                    Ok(c) => Ok(Some(c)),
                    Err(e) => Err(e),
                },
                None => Ok(None),
            }),
    {
        match s {
            Some(val) => match Self::parse(val) {
                Ok(c) => Ok(Some(c)),
                Err(e) => Err(e),
            },
            None => Ok(None),
        }
    }

    /// Reads a coordinate (the same as `parse`).
    pub fn new(s: &str) -> (r: Result<Coord, CoordError>)
        ensures
            r == spec_parse_coord(s@),
    {
        Self::parse(s)
    }
}

/// The first `k` characters of `s`.
fn slice_prefix(s: &Vec<char>, k: usize) -> (v: Vec<char>)
    requires
        k <= s@.len(),
    ensures
        v@ == s@.take(k as int),
{
    let mut v: Vec<char> = Vec::new();
    let mut i: usize = 0;
    while i < k
        invariant
            k <= s@.len(),
            i <= k,
            v@ == s@.take(i as int),
        decreases k - i,
    {
        v.push(s[i]);
        i = i + 1;
        assert(v@ =~= s@.take(i as int));
    }
    v
}

/// The characters of an `i32` literal are a sign or decimal digits.
proof fn lemma_int_literal_chars(t: Seq<char>, j: int)
    requires
        spec_parse_i32(t) is Some,
        0 <= j < t.len(),
    ensures
        t[j] == '+' || t[j] == '-' || ('0' <= t[j] && t[j] <= '9'),
{
    let signed = t.len() > 0 && (t[0] == '+' || t[0] == '-');
    let digits = if signed { t.drop_first() } else { t };
    if signed && j == 0 {
    } else if signed {
        assert(digits[j - 1] == t[j]);
        assert(digit_value(digits[j - 1], 10) is Some);
    } else {
        assert(digit_value(digits[j], 10) is Some);
    }
}

/// A text with no white space at either end is its own trim.
proof fn lemma_trim_of_unpadded(u: Seq<char>)
    requires
        u.len() > 0,
        !is_white_space(u[0]),
        !is_white_space(u.last()),
    ensures
        trim(u) == u,
{
}

/// A pixel count reads the same with or without its `px` suffix.
pub proof fn lemma_px_suffix_optional(t: Seq<char>)
    requires
        spec_parse_i32(t) is Some,
    ensures
        spec_parse_coord(t) == Ok::<Coord, CoordError>(Coord::Px(spec_parse_i32(t)->Some_0)),
        spec_parse_coord(t + seq!['p', 'x']) == spec_parse_coord(t),
{
    let u = t + seq!['p', 'x'];
    assert forall|j: int| 0 <= j < t.len() implies t[j] != 'e' && t[j] != 'E' && t[j] != '%'
        && t[j] != 'x' && !is_white_space(t[j]) by {
        lemma_int_literal_chars(t, j);
    }
    lemma_int_literal_chars(t, 0);
    lemma_int_literal_chars(t, t.len() - 1);
    lemma_trim_of_unpadded(t);
    assert(u[0] == t[0]);
    lemma_trim_of_unpadded(u);
    assert(!t.contains('e') && !t.contains('E'));
    assert forall|j: int| 0 <= j < u.len() implies u[j] != 'e' && u[j] != 'E' by {
        if j < t.len() {
            assert(u[j] == t[j]);
        }
    }
    assert(!u.contains('e') && !u.contains('E'));
    assert(u.take(u.len() - 2) =~= t);
}

impl std::str::FromStr for Coord {
    type Err = CoordError;

    /// Reads a coordinate (the same as `parse`).
    fn from_str(s: &str) -> (r: Result<Coord, CoordError>)
        ensures
            r == spec_parse_coord(s@),
    {
        Coord::parse(s)
    }
}

} // verus!
