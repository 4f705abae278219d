//! Exact decimal numbers with six places, used where option values are
//! fractional (percentages, device pixel ratios, qualities, angles, sigmas).
use vstd::prelude::*;
use crate::text::{
    all_digits, ascii_lower, ascii_lower_seq, decimal_digits, decimal_text, digit, digit_value,
    digits_value, lemma_digits_value_nonneg, lemma_digits_value_prefix, lower_ascii, push_char,
};

verus! {

/// A number with six decimal places: `micros / 1_000_000`.
#[derive(Clone, Copy, Debug, PartialEq, Eq, Structural)]
pub struct Decimal {
    pub micros: i64,
}

/// One unit in micros.
pub const MICROS_PER_UNIT: i64 = 1_000_000;

/// The least magnitude that an `f32` literal rounds to infinity: `2^128 - 2^103`.
pub const F32_OVERFLOW_BOUND: u128 = 340282356779733661637539395458142568448;

pub open spec fn pow10(n: nat) -> int
    decreases n,
{
    if n == 0 {
        1
    } else {
        10 * pow10((n - 1) as nat)
    }
}

/// `10^k` lies between 1 and `10^6` for `k <= 6`, and `10^6` is a million.
pub proof fn lemma_pow10_small(k: nat)
    requires
        k <= 6,
    ensures
        1 <= pow10(k) <= 1_000_000,
        pow10(6) == 1_000_000,
{
    reveal_with_fuel(pow10, 7);
}

pub proof fn lemma_pow10_positive(k: nat)
    ensures
        pow10(k) >= 1,
    decreases k,
{
    if k > 0 {
        lemma_pow10_positive((k - 1) as nat);
    }
}

/// `v` clamped to the range of `i64`.
pub open spec fn clamp_i64(v: int) -> i64 {
    if v < i64::MIN {
        i64::MIN
    } else if v > i64::MAX {
        i64::MAX
    } else {
        v as i64
    }
}

/// `v` clamped to the range of `i32` (Rust's saturating float-to-int `as`).
pub open spec fn clamp_i32(v: int) -> i32 {
    if v < i32::MIN {
        i32::MIN
    } else if v > i32::MAX {
        i32::MAX
    } else {
        v as i32
    }
}

/// `v` clamped to the range of `u32`.
pub open spec fn clamp_u32(v: int) -> u32 {
    if v < 0 {
        0
    } else if v > u32::MAX {
        u32::MAX
    } else {
        v as u32
    }
}

/// `v` clamped to the range of `u8`.
pub open spec fn clamp_u8(v: int) -> u8 {
    if v < 0 {
        0
    } else if v > 255 {
        255
    } else {
        v as u8
    }
}

/// `n / d` rounded to the nearest integer, halves away from zero (`f32::round`).
pub open spec fn round_div(n: int, d: int) -> int
    recommends
        d > 0,
{
    if n >= 0 {
        (2 * n + d) / (2 * d)
    } else {
        -((-2 * n + d) / (2 * d))
    }
}

/// `n / d` truncated toward zero (Rust's float-to-int `as`).
pub open spec fn trunc_div(n: int, d: int) -> int
    recommends
        d > 0,
{
    if n >= 0 {
        n / d
    } else {
        -((-n) / d)
    }
}

impl Decimal {
    /// The number `micros / 1_000_000`.
    pub fn from_micros(micros: i64) -> (d: Decimal)
        ensures
            d.micros == micros,
    {
        Decimal { micros }
    }

    /// The whole number `v`.
    pub fn from_int(v: i32) -> (d: Decimal)
        ensures
            d.micros == v * 1_000_000,
    {
        Decimal { micros: (v as i64) * MICROS_PER_UNIT }
    }

    /// Truncation toward zero, saturated to `u8` (Rust's `f32 as u8`).
    pub fn to_u8_saturating(self) -> (r: u8)
        ensures
            r == clamp_u8(trunc_div(self.micros as int, 1_000_000)),
    {
        let t = self.micros / MICROS_PER_UNIT;
        if t < 0 {
            0
        } else if t > 255 {
            255
        } else {
            t as u8
        }
    }

    /// Rounding (halves away from zero), saturated to `u8` (`f32::round` then `as u8`).
    pub fn round_to_u8(self) -> (r: u8)
        ensures
            r == clamp_u8(round_div(self.micros as int, 1_000_000)),
    {
        let r = round_div_i128(self.micros as i128, 1_000_000);
        if r < 0 {
            0
        } else if r > 255 {
            255
        } else {
            r as u8
        }
    }
}

/// `n / d` rounded halves away from zero.
pub fn round_div_i128(n: i128, d: i128) -> (r: i128)
    requires
        d > 0,
        -0x1000_0000_0000_0000_0000_0000_0000 < n < 0x1000_0000_0000_0000_0000_0000_0000,
        d < 0x1000_0000_0000_0000_0000_0000_0000,
    ensures
        r == round_div(n as int, d as int),
{
    if n >= 0 {
        (2 * n + d) / (2 * d)
    } else {
        let m: i128 = 0 - n;
        let q: i128 = (2 * m + d) / (2 * d);
        0 - q
    }
}

/// The result of reading a floating-point literal.
#[derive(Clone, Copy, Debug, PartialEq, Eq, Structural)]
pub enum FloatLiteral {
    /// A finite number, kept to six decimal places (truncated) and saturated to `i64` micros.
    Finite(Decimal),
    /// An infinity or NaN, or a number too large for `f32`.
    NonFinite,
    /// Not a floating-point literal.
    Invalid,
}

/// `s` split into a sign (true for `-`) and the rest.
pub open spec fn sign_split(s: Seq<char>) -> (bool, Seq<char>) {
    if s.len() > 0 && (s[0] == '+' || s[0] == '-') {
        (s[0] == '-', s.drop_first())
    } else {
        (false, s)
    }
}

/// `inf`, `infinity` or `nan`, in any case.
pub open spec fn is_non_finite_word(b: Seq<char>) -> bool {
    let l = ascii_lower_seq(b);
    ||| l =~= seq!['i', 'n', 'f']
    ||| l =~= seq!['i', 'n', 'f', 'i', 'n', 'i', 't', 'y']
    ||| l =~= seq!['n', 'a', 'n']
}

/// `b` has its decimal point at `p`, with digits only before and after it.
pub open spec fn has_point_at(b: Seq<char>, p: int) -> bool {
    &&& 0 <= p < b.len()
    &&& b[p] == '.'
    &&& all_digits(b.take(p), 10)
    &&& all_digits(b.skip(p + 1), 10)
}

/// `Digit+ | Digit+ '.' Digit* | Digit* '.' Digit+`
pub open spec fn valid_number(b: Seq<char>) -> bool {
    ||| (b.len() > 0 && all_digits(b, 10))
    ||| (b.len() >= 2 && exists|p: int| has_point_at(b, p))
}

pub open spec fn point_of(b: Seq<char>) -> int {
    choose|p: int| has_point_at(b, p)
}

/// The digits before the decimal point of a valid number.
pub open spec fn int_digits(b: Seq<char>) -> Seq<char> {
    if all_digits(b, 10) {
        b
    } else {
        b.take(point_of(b))
    }
}

/// The digits after the decimal point of a valid number.
pub open spec fn frac_digits(b: Seq<char>) -> Seq<char> {
    if all_digits(b, 10) {
        Seq::empty()
    } else {
        b.skip(point_of(b) + 1)
    }
}

/// The first six fractional digits as micros (missing digits count as zeros).
pub open spec fn frac_micros(f: Seq<char>) -> int {
    if f.len() >= 6 {
        digits_value(f.take(6), 10)
    } else {
        digits_value(f, 10) * pow10((6 - f.len()) as nat)
    }
}

/// How `f32::from_str` reads `s` written without an exponent, with finite
/// values kept as six-place decimals; a text with an exponent is `Invalid` here.
pub open spec fn spec_parse_float(s: Seq<char>) -> FloatLiteral {
    let (negative, b) = sign_split(s);
    if is_non_finite_word(b) {
        FloatLiteral::NonFinite
    } else if !valid_number(b) {
        FloatLiteral::Invalid
    } else if digits_value(int_digits(b), 10) >= F32_OVERFLOW_BOUND {
        FloatLiteral::NonFinite
    } else {
        let m = digits_value(int_digits(b), 10) * 1_000_000 + frac_micros(frac_digits(b));
        FloatLiteral::Finite(Decimal { micros: clamp_i64(if negative { -m } else { m }) })
    }
}

/// `s[from..]` spells `word` (given in lower case) in any ASCII case.
fn matches_word_ignoring_case(s: &[char], from: usize, word: &[char]) -> (b: bool)
    requires
        from <= s@.len(),
    ensures
        b == (ascii_lower_seq(s@.skip(from as int)) =~= word@),
{
    let ghost rest = s@.skip(from as int);
    let n = s.len();
    if n - from != word.len() {
        assert(ascii_lower_seq(rest).len() != word@.len());
        return false;
    }
    let mut i: usize = 0;
    while i < word.len()
        invariant
            from <= n == s@.len(),
            n - from == word@.len(),
            rest == s@.skip(from as int),
            i <= word@.len(),
            forall|j: int| 0 <= j < i ==> ascii_lower(rest[j]) == word@[j],
        decreases word@.len() - i,
    {
        if lower_ascii(s[from + i]) != word[i] {
            assert(ascii_lower_seq(rest)[i as int] != word@[i as int]);
            return false;
        }
        i = i + 1;
    }
    assert(ascii_lower_seq(rest) =~= word@);
    true
}

/// Value of the decimal digits `s[from..to]`, or `None` when it reaches `cap`.
fn capped_digits(s: &[char], from: usize, to: usize, cap: u128) -> (r: Option<u128>)
    requires
        from <= to <= s@.len(),
        all_digits(s@.subrange(from as int, to as int), 10),
        0 < cap <= F32_OVERFLOW_BOUND,
    ensures
        ({
            let d = s@.subrange(from as int, to as int);
            match r {
                Some(v) => v == digits_value(d, 10) && v < cap,
                None => digits_value(d, 10) >= cap,
            }
        }),
{
    let ghost d = s@.subrange(from as int, to as int);
    let mut acc: u128 = 0;
    let mut i = from;
    while i < to
        invariant
            from <= i <= to <= s@.len(),
            0 < cap <= F32_OVERFLOW_BOUND,
            d == s@.subrange(from as int, to as int),
            all_digits(d, 10),
            acc == digits_value(d.take(i - from), 10),
            acc < cap,
        decreases to - i,
    {
        let ghost k = i - from;
        assert(d.take(k + 1).drop_last() =~= d.take(k));
        assert(d[k] == s@[i as int]);
        assert(digit_value(d[k], 10) is Some);
        let v = digit(s[i], 10).unwrap();
        if acc > (cap - 1) / 10 {
            proof {
                lemma_digits_value_prefix(d, k + 1, 10);
                assert(acc * 10 + v >= cap) by (nonlinear_arith)
                    requires
                        acc > (cap - 1) / 10,
                        cap > 0,
                        v >= 0,
                ;
            }
            return None;
        }
        assert(acc * 10 + v <= cap + 9) by (nonlinear_arith)
            requires
                acc <= (cap - 1) / 10,
                v < 10,
                cap > 0,
        ;
        acc = acc * 10 + (v as u128);
        if acc >= cap {
            proof {
                lemma_digits_value_prefix(d, k + 1, 10);
            }
            return None;
        }
        i = i + 1;
    }
    assert(d.take(to - from) =~= d);
    Some(acc)
}

/// Reads a floating-point literal without exponent the way `f32::from_str`
/// accepts it, keeping a finite value to six decimal places.
pub fn parse_float(s: &[char]) -> (r: FloatLiteral)
    ensures
        r == spec_parse_float(s@),
{
    let n = s.len();
    let negative = n > 0 && s[0] == '-';
    let start: usize = if n > 0 && (s[0] == '+' || s[0] == '-') { 1 } else { 0 };
    let ghost b = s@.skip(start as int);
    assert(sign_split(s@) == (negative, b));
    let inf = ['i', 'n', 'f'];
    let infinity = ['i', 'n', 'f', 'i', 'n', 'i', 't', 'y'];
    let nan = ['n', 'a', 'n'];
    assert(inf@ =~= seq!['i', 'n', 'f']);
    assert(infinity@ =~= seq!['i', 'n', 'f', 'i', 'n', 'i', 't', 'y']);
    assert(nan@ =~= seq!['n', 'a', 'n']);
    if matches_word_ignoring_case(s, start, &inf) || matches_word_ignoring_case(
        s,
        start,
        &infinity,
    ) || matches_word_ignoring_case(s, start, &nan) {
        return FloatLiteral::NonFinite;
    }
    assert(!is_non_finite_word(b));
    // Locate the decimal point, and check that every other character is a digit.
    let mut point: Option<usize> = None;
    let mut i = start;
    while i < n
        invariant
            start <= i <= n == s@.len(),
            b == s@.skip(start as int),
            sign_split(s@) == (negative, b),
            !is_non_finite_word(b),
            match point {
                Some(p) => start <= p < i && s@[p as int] == '.' && forall|j: int|
                    start <= j < i && j != p ==> (#[trigger] digit_value(s@[j], 10)) is Some,
                None => forall|j: int|
                    start <= j < i ==> (#[trigger] digit_value(s@[j], 10)) is Some,
            },
        decreases n - i,
    {
        let c = s[i];
        if c == '.' && point.is_none() {
            point = Some(i);
        } else if digit(c, 10).is_none() {
            proof {
                let k = i - start;
                assert(b[k] == c);
                assert(!all_digits(b, 10));
                assert forall|p: int| !has_point_at(b, p) by {
                    if has_point_at(b, p) {
                        if k == p {
                            let p1 = point.unwrap() - start;
                            assert(b.take(p)[p1] == '.');
                            assert(digit_value(b.take(p)[p1], 10) is None);
                        } else if k < p {
                            assert(b.take(p)[k] == c);
                        } else if k > p {
                            assert(b.skip(p + 1)[k - p - 1] == c);
                        }
                    }
                }
                assert(!valid_number(b));
            }
            return FloatLiteral::Invalid;
        }
        i = i + 1;
    }
    let len = n - start;
    let int_end: usize;
    let frac_start: usize;
    match point {
        None => {
            assert(all_digits(b, 10)) by {
                assert forall|j: int| 0 <= j < b.len() implies (#[trigger] digit_value(b[j], 10))
                    is Some by {
                    assert(b[j] == s@[j + start]);
                }
            }
            if len == 0 {
                assert(!has_point_at(b, 0));
                return FloatLiteral::Invalid;
            }
            int_end = n;
            frac_start = n;
            assert(int_digits(b) == s@.subrange(start as int, n as int));
            assert(frac_digits(b) =~= s@.subrange(n as int, n as int));
        },
        Some(p) => {
            let ghost q = p - start;
            assert(has_point_at(b, q)) by {
                assert forall|j: int| 0 <= j < b.take(q).len() implies (#[trigger] digit_value(
                    b.take(q)[j],
                    10,
                )) is Some by {
                    assert(b.take(q)[j] == s@[j + start]);
                }
                assert forall|j: int| 0 <= j < b.skip(q + 1).len() implies (
                #[trigger] digit_value(b.skip(q + 1)[j], 10)) is Some by {
                    assert(b.skip(q + 1)[j] == s@[j + q + 1 + start]);
                }
            }
            assert(!all_digits(b, 10)) by {
                assert(digit_value(b[q], 10) is None);
            }
            if len < 2 {
                return FloatLiteral::Invalid;
            }
            assert forall|x: int| has_point_at(b, x) implies x == q by {
                if x < q {
                    assert(b.take(q)[x] == '.');
                    assert(digit_value(b.take(q)[x], 10) is None);
                } else if x > q {
                    assert(b.take(x)[q] == '.');
                    assert(digit_value(b.take(x)[q], 10) is None);
                }
            }
            assert(point_of(b) == q);
            int_end = p;
            frac_start = p + 1;
            assert(int_digits(b) =~= s@.subrange(start as int, p as int));
            assert(frac_digits(b) =~= s@.subrange(p + 1, n as int));
        },
    }
    let ghost idig = s@.subrange(start as int, int_end as int);
    let ghost fdig = s@.subrange(frac_start as int, n as int);
    assert(valid_number(b));
    assert(all_digits(idig, 10) && all_digits(fdig, 10));
    let whole = match capped_digits(s, start, int_end, F32_OVERFLOW_BOUND) {
        None => {
            return FloatLiteral::NonFinite;
        },
        Some(v) => v,
    };
    // The first six fractional digits, padded with zeros.
    let mut frac: i128 = 0;
    let mut k: usize = 0;
    while k < 6
        invariant
            frac_start <= n == s@.len(),
            fdig == s@.subrange(frac_start as int, n as int),
            all_digits(fdig, 10),
            k <= 6,
            frac == (if k <= fdig.len() {
                digits_value(fdig.take(k as int), 10)
            } else {
                digits_value(fdig, 10) * pow10((k - fdig.len()) as nat)
            }),
            0 <= frac < pow10(k as nat),
            pow10(k as nat) <= 1_000_000,
        decreases 6 - k,
    {
        proof {
            lemma_pow10_small(k as nat);
        }
        if k < n - frac_start {
            assert(fdig.take(k + 1).drop_last() =~= fdig.take(k as int));
            assert(fdig.take(k + 1).last() == fdig[k as int]);
            assert(fdig[k as int] == s@[frac_start + k]);
            assert(digit_value(fdig[k as int], 10) is Some);
            let v = digit(s[frac_start + k], 10).unwrap();
            frac = frac * 10 + (v as i128);
        } else {
            proof {
                if k == fdig.len() {
                    assert(fdig.take(k as int) =~= fdig);
                    assert(pow10(1) == 10 * pow10(0));
                } else {
                    let a = digits_value(fdig, 10);
                    let e = pow10((k - fdig.len()) as nat);
                    assert(pow10((k + 1 - fdig.len()) as nat) == 10 * e);
                    assert(a * e * 10 == a * (10 * e)) by (nonlinear_arith);
                }
            }
            frac = frac * 10;
        }
        assert(pow10((k + 1) as nat) == 10 * pow10(k as nat));
        k = k + 1;
        proof {
            lemma_pow10_small(k as nat);
        }
    }
    assert(frac == frac_micros(fdig)) by {
        if fdig.len() == 6 {
            assert(fdig.take(6) =~= fdig);
            assert(pow10(0) == 1);
        }
    }
    let m: i128;
    if whole >= 10_000_000_000_000 {
        proof {
            lemma_digits_value_nonneg(fdig.take(0), 10);
        }
        m = if negative { i64::MIN as i128 } else { i64::MAX as i128 };
        proof {
            lemma_pow10_small(6);
            lemma_digits_value_nonneg(fdig, 10);
            if fdig.len() >= 6 {
                lemma_digits_value_nonneg(fdig.take(6), 10);
            } else {
                lemma_pow10_positive((6 - fdig.len()) as nat);
                assert(digits_value(fdig, 10) * pow10((6 - fdig.len()) as nat) >= 0)
                    by (nonlinear_arith)
                    requires
                        digits_value(fdig, 10) >= 0,
                        pow10((6 - fdig.len()) as nat) >= 1,
                ;
            }
        }
    } else {
        let w = whole as i128;
        assert(w * 1_000_000 < 10_000_000_000_000_000_000) by (nonlinear_arith)
            requires
                0 <= w < 10_000_000_000_000,
        ;
        let mm = w * 1_000_000 + frac;
        m = if negative { -mm } else { mm };
    }
    let micros: i64 = if m < i64::MIN as i128 {
        i64::MIN
    } else if m > i64::MAX as i128 {
        i64::MAX
    } else {
        m as i64
    };
    FloatLiteral::Finite(Decimal { micros })
}

proof fn lemma_pow10_add(a: nat, b: nat)
    ensures
        pow10(a + b) == pow10(a) * pow10(b),
    decreases b,
{
    if b > 0 {
        lemma_pow10_add(a, (b - 1) as nat);
        assert(pow10(a + b) == 10 * pow10((a + b - 1) as nat));
        assert(10 * (pow10(a) * pow10((b - 1) as nat)) == pow10(a) * (10 * pow10(
            (b - 1) as nat,
        ))) by (nonlinear_arith);
    }
}

/// A digit string of length `n` has a value below `10^n`.
proof fn lemma_digits_value_below(s: Seq<char>)
    requires
        all_digits(s, 10),
    ensures
        0 <= digits_value(s, 10) < pow10(s.len()),
    decreases s.len(),
{
    if s.len() > 0 {
        let t = s.drop_last();
        assert(all_digits(t, 10)) by {
            assert forall|j: int| 0 <= j < t.len() implies (#[trigger] digit_value(t[j], 10))
                is Some by {
                assert(t[j] == s[j]);
            }
        }
        lemma_digits_value_below(t);
        assert(digit_value(s[s.len() - 1], 10) is Some);
        let d = digit_value(s.last(), 10).unwrap();
        assert(0 <= d < 10);
        assert(pow10(s.len()) == 10 * pow10(t.len()));
        assert(0 <= digits_value(t, 10) * 10 + d < 10 * pow10(t.len())) by (nonlinear_arith)
            requires
                0 <= digits_value(t, 10) < pow10(t.len()),
                0 <= d < 10,
        ;
    }
}

/// The value of a digit string is that of its first `k` digits shifted left
/// past the others, plus the value of the others.
proof fn lemma_digits_value_split(s: Seq<char>, k: int)
    requires
        0 <= k <= s.len(),
    ensures
        digits_value(s, 10) == digits_value(s.take(k), 10) * pow10((s.len() - k) as nat)
            + digits_value(s.skip(k), 10),
    decreases s.len() - k,
{
    if k == s.len() {
        assert(s.take(k) =~= s);
        assert(s.skip(k).len() == 0);
        assert(pow10(0) == 1);
    } else {
        let t = s.drop_last();
        lemma_digits_value_split(t, k);
        assert(t.take(k) =~= s.take(k));
        assert(s.skip(k).drop_last() =~= t.skip(k));
        assert(s.skip(k).last() == s.last());
        let e = pow10((t.len() - k) as nat);
        assert(pow10((s.len() - k) as nat) == 10 * e);
        let a = digits_value(s.take(k), 10);
        let r = digits_value(t.skip(k), 10);
        let d = match digit_value(s.last(), 10) {
            Some(d) => d,
            None => 0,
        };
        assert(digits_value(s, 10) == digits_value(t, 10) * 10 + d);
        assert(digits_value(s.skip(k), 10) == r * 10 + d);
        assert((a * e + r) * 10 == a * (10 * e) + r * 10) by (nonlinear_arith);
    }
}

/// The first six fractional digits are the fraction's value in millionths,
/// truncated.
proof fn lemma_frac_micros_value(f: Seq<char>)
    requires
        all_digits(f, 10),
    ensures
        frac_micros(f) == digits_value(f, 10) * 1_000_000 / pow10(f.len()),
{
    lemma_pow10_small(6);
    let v = digits_value(f, 10);
    if f.len() >= 6 {
        let rest = (f.len() - 6) as nat;
        lemma_digits_value_split(f, 6);
        assert(f.take(6).len() == 6);
        let hi = digits_value(f.take(6), 10);
        let lo = digits_value(f.skip(6), 10);
        assert(all_digits(f.skip(6), 10)) by {
            assert forall|j: int| 0 <= j < f.skip(6).len() implies (#[trigger] digit_value(
                f.skip(6)[j],
                10,
            )) is Some by {
                assert(f.skip(6)[j] == f[j + 6]);
            }
        }
        lemma_digits_value_below(f.skip(6));
        lemma_pow10_add(rest, 6);
        assert(rest + 6 == f.len());
        let e = pow10(rest);
        assert(v == hi * e + lo);
        assert(pow10(f.len()) == e * 1_000_000);
        assert(v * 1_000_000 == hi * (e * 1_000_000) + lo * 1_000_000) by (nonlinear_arith)
            requires
                v == hi * e + lo,
        ;
        assert(0 <= lo * 1_000_000 < e * 1_000_000) by (nonlinear_arith)
            requires
                0 <= lo < e,
        ;
        vstd::arithmetic::div_mod::lemma_fundamental_div_mod_converse(
            v * 1_000_000,
            e * 1_000_000,
            hi,
            lo * 1_000_000,
        );
    } else {
        let pad = (6 - f.len()) as nat;
        lemma_pow10_add(pad, f.len());
        lemma_pow10_positive(f.len());
        let e = pow10(f.len());
        let p = pow10(pad);
        assert(pad + f.len() == 6);
        assert(v * 1_000_000 == (v * p) * e) by (nonlinear_arith)
            requires
                1_000_000 == p * e,
        ;
        vstd::arithmetic::div_mod::lemma_fundamental_div_mod_converse(
            v * 1_000_000,
            e,
            v * p,
            0,
        );
    }
}

/// A finite decimal literal `I.F` (an optional `-`, the digits `I`, a point,
/// the digits `F`, at least one digit in all) stands for `I + F / 10^|F|`,
/// kept to six places: each fraction digit weighs a tenth of the one before it.
pub proof fn lemma_decimal_literal_value(negative: bool, i: Seq<char>, f: Seq<char>)
    requires
        all_digits(i, 10),
        all_digits(f, 10),
        i.len() + f.len() >= 1,
        digits_value(i, 10) < F32_OVERFLOW_BOUND,
    ensures
        ({
            let m = digits_value(i, 10) * 1_000_000 + digits_value(f, 10) * 1_000_000 / pow10(
                f.len(),
            );
            let sign = if negative { seq!['-'] } else { Seq::<char>::empty() };
            spec_parse_float(sign + i + seq!['.'] + f) == FloatLiteral::Finite(
                Decimal { micros: clamp_i64(if negative { -m } else { m }) },
            )
        }),
{
    let sign = if negative { seq!['-'] } else { Seq::<char>::empty() };
    let s = sign + i + seq!['.'] + f;
    let b = i + seq!['.'] + f;
    let k = i.len() as int;
    assert(sign_split(s) == (negative, b)) by {
        if negative {
            assert(s.drop_first() =~= b);
        } else {
            assert(s =~= b);
            if i.len() > 0 {
                assert(digit_value(i[0], 10) is Some);
            }
        }
    }
    assert(b[k] == '.');
    assert(b.take(k) =~= i);
    assert(b.skip(k + 1) =~= f);
    assert(has_point_at(b, k));
    assert(!all_digits(b, 10)) by {
        assert(digit_value(b[k], 10) is None);
    }
    assert forall|x: int| has_point_at(b, x) implies x == k by {
        if x < k {
            assert(b[x] == i[x]);
            assert(digit_value(i[x], 10) is Some);
        } else if x > k {
            assert(b[x] == f[x - k - 1]);
            assert(digit_value(f[x - k - 1], 10) is Some);
        }
    }
    assert(point_of(b) == k);
    assert(valid_number(b));
    assert(!is_non_finite_word(b)) by {
        let l = ascii_lower_seq(b);
        assert(l[k] == '.');
        if l =~= seq!['i', 'n', 'f'] || l =~= seq!['i', 'n', 'f', 'i', 'n', 'i', 't', 'y']
            || l =~= seq!['n', 'a', 'n'] {
            assert(l[k] != '.');
        }
    }
    assert(int_digits(b) == i);
    assert(frac_digits(b) == f);
    lemma_frac_micros_value(f);
}

/// An integer literal (an optional `-`, then at least one digit) stands for
/// the value of its digits.
pub proof fn lemma_integer_literal_value(negative: bool, i: Seq<char>)
    requires
        all_digits(i, 10),
        i.len() >= 1,
        digits_value(i, 10) < F32_OVERFLOW_BOUND,
    ensures
        ({
            let m = digits_value(i, 10) * 1_000_000;
            let sign = if negative { seq!['-'] } else { Seq::<char>::empty() };
            spec_parse_float(sign + i) == FloatLiteral::Finite(
                Decimal { micros: clamp_i64(if negative { -m } else { m }) },
            )
        }),
{
    let sign = if negative { seq!['-'] } else { Seq::<char>::empty() };
    let s = sign + i;
    assert(sign_split(s) == (negative, i)) by {
        if negative {
            assert(s.drop_first() =~= i);
        } else {
            assert(s =~= i);
            assert(digit_value(i[0], 10) is Some);
        }
    }
    assert(!is_non_finite_word(i)) by {
        let l = ascii_lower_seq(i);
        assert(digit_value(i[0], 10) is Some);
        assert(l[0] == i[0]);
        if l =~= seq!['i', 'n', 'f'] || l =~= seq!['i', 'n', 'f', 'i', 'n', 'i', 't', 'y']
            || l =~= seq!['n', 'a', 'n'] {
            assert(l[0] == 'i' || l[0] == 'n');
        }
    }
    assert(frac_digits(i) =~= Seq::<char>::empty());
    assert(frac_micros(Seq::<char>::empty()) == 0) by {
        assert(digits_value(Seq::<char>::empty(), 10) == 0);
    }
}

/// The ASCII character of a decimal digit.
pub open spec fn digit_char(d: int) -> char {
    ((d + 48) as u8) as char
}

/// The six decimal places of a fraction of a million, most significant first.
pub open spec fn six_places(f: int) -> Seq<char> {
    Seq::new(6, |i: int| digit_char((f / pow10((5 - i) as nat)) % 10))
}

/// `s` without its trailing `0`s.
pub open spec fn trim_zeros(s: Seq<char>) -> Seq<char>
    decreases s.len(),
{
    if s.len() > 0 && s.last() == '0' {
        trim_zeros(s.drop_last())
    } else {
        s
    }
}

/// A number in plain decimal notation: a `-` for a negative number, the whole
/// part, and the fraction without trailing zeros after a `.` when it is not
/// zero (how `f32` displays a value of at most seven significant digits).
pub open spec fn decimal_repr(d: Decimal) -> Seq<char> {
    let m: int = if d.micros < 0 { -d.micros } else { d.micros as int };
    let sign = if d.micros < 0 { seq!['-'] } else { Seq::<char>::empty() };
    let fraction = if m % 1_000_000 == 0 {
        Seq::<char>::empty()
    } else {
        seq!['.'] + trim_zeros(six_places(m % 1_000_000))
    };
    sign + decimal_digits((m / 1_000_000) as nat) + fraction
}

/// The number in plain decimal notation.
pub fn decimal_display(d: Decimal) -> (s: String)
    ensures
        s@ == decimal_repr(d),
{
    let negative = d.micros < 0;
    let m: u64 = if negative {
        (0i128 - (d.micros as i128)) as u64
    } else {
        d.micros as u64
    };
    let whole = m / 1_000_000;
    let frac = m % 1_000_000;
    let mut s = if negative {
        String::from_str("-")
    } else {
        String::new()
    };
    proof {
        reveal_strlit("-");
    }
    let w = decimal_text(whole);
    s.append(w.as_str());
    if frac != 0 {
        push_char(&mut s, '.');
        let divisors: [u64; 6] = [100_000, 10_000, 1_000, 100, 10, 1];
        let mut places: Vec<char> = Vec::new();
        let mut i: usize = 0;
        while i < 6
            invariant
                i <= 6,
                frac < 1_000_000,
                divisors@ == seq![100_000u64, 10_000, 1_000, 100, 10, 1],
                places@ == six_places(frac as int).take(i as int),
            decreases 6 - i,
        {
            proof {
                reveal_with_fuel(pow10, 7);
                assert(divisors@[i as int] == pow10((5 - i) as nat));
            }
            let digit = ((frac / divisors[i]) % 10) as u8;
            places.push((digit + 48) as char);
            i = i + 1;
            assert(places@ =~= six_places(frac as int).take(i as int));
        }
        assert(places@ =~= six_places(frac as int));
        while places.len() > 0 && places[places.len() - 1] == '0'
            invariant
                trim_zeros(places@) == trim_zeros(six_places(frac as int)),
            decreases places@.len(),
        {
            places.pop();
        }
        let mut j: usize = 0;
        let ghost before = s@;
        while j < places.len()
            invariant
                j <= places@.len(),
                s@ == before + places@.take(j as int),
            decreases places@.len() - j,
        {
            push_char(&mut s, places[j]);
            j = j + 1;
            assert(s@ =~= before + places@.take(j as int));
        }
        assert(places@.take(j as int) =~= places@);
    }
    proof {
        let sign = if d.micros < 0 { seq!['-'] } else { Seq::<char>::empty() };
        assert(sign =~= (if negative { "-"@ } else { Seq::<char>::empty() }));
    }
    s
}

} // verus!
