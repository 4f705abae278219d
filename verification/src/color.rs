//! Background colours: hex (`#rgb`, `#rrggbb`) and decimal (`r,g,b`) notations.
use vstd::prelude::*;
use crate::text::{
    all_digits, byte_len, chars_of, decimal_digits, decimal_text, digit, digit_value,
    digits_value, is_white_space, lemma_split_on_nonempty, lemma_utf8_len_bounds, parse_u8,
    push_char, spec_parse_u8, split_at_char, split_on, string_of, strip_leading,
    strip_leading_char, trim, trim_end, trim_start, trimmed, utf8_len,
};

verus! {

/// An RGBA colour with eight bits per channel.
#[derive(Clone, Copy, Debug, PartialEq, Eq, Structural)]
pub struct Rgba {
    pub r: u8,
    pub g: u8,
    pub b: u8,
    pub a: u8,
}

impl Rgba {
    pub fn new(r: u8, g: u8, b: u8, a: u8) -> (c: Rgba)
        ensures
            c == (Rgba { r, g, b, a }),
    {
        Rgba { r, g, b, a }
    }
}

/// The colour that transparent pixels are flattened onto.
#[derive(Clone, Copy, Debug, PartialEq, Eq, Structural)]
pub struct BackgroundOptions {
    pub color: Rgba,
}

/// Why a colour could not be read.
#[derive(Debug)]
pub enum ColorError {
    /// A character of a three-digit hex colour is no hex digit.
    InvalidHexDigit(char),
    /// A pair of a six-digit hex colour is no hex byte; holds the hex text.
    InvalidHexColor(String),
    /// The hex text is neither three nor six bytes long; holds the hex text.
    InvalidHexColorFormat(String),
    /// A decimal colour has another number of components than three; holds it.
    ComponentCount(usize),
    /// The red, green or blue component is no `u8`; holds the component.
    InvalidRed(String),
    InvalidGreen(String),
    InvalidBlue(String),
}

/// The message of a colour error.
pub open spec fn color_error_message(e: ColorError) -> Seq<char> {
    match e {
        ColorError::InvalidHexDigit(c) => "Invalid hex digit: "@.push(c),
        ColorError::InvalidHexColor(h) => "Invalid hex color: "@ + h@,
        ColorError::InvalidHexColorFormat(h) => "Invalid hex color format: "@ + h@,
        ColorError::ComponentCount(n) => "Invalid RGB format: expected 3 values, got "@ + decimal_digits(n as nat),
        ColorError::InvalidRed(p) => "Invalid red value: "@ + p@,
        ColorError::InvalidGreen(p) => "Invalid green value: "@ + p@,
        ColorError::InvalidBlue(p) => "Invalid blue value: "@ + p@,
    }
}

impl ColorError {
    /// The error message.
    pub fn to_string(&self) -> (r: String)
        ensures
            r@ == color_error_message(*self),
    {
        match self {
            ColorError::InvalidHexDigit(c) => {
                let mut s = String::from_str("Invalid hex digit: ");
                push_char(&mut s, *c);
                s
            },
            ColorError::InvalidHexColor(h) => String::from_str("Invalid hex color: ").concat(
                h.as_str(),
            ),
            ColorError::InvalidHexColorFormat(h) => String::from_str(
                "Invalid hex color format: ",
            ).concat(h.as_str()),
            ColorError::ComponentCount(n) => String::from_str(
                "Invalid RGB format: expected 3 values, got ",
            ).concat(decimal_text(*n as u64).as_str()),
            ColorError::InvalidRed(p) => String::from_str("Invalid red value: ").concat(p.as_str()),
            ColorError::InvalidGreen(p) => String::from_str("Invalid green value: ").concat(
                p.as_str(),
            ),
            ColorError::InvalidBlue(p) => String::from_str("Invalid blue value: ").concat(p.as_str()),
        }
    }
}

/// The first character of `s` that is no hex digit.
pub open spec fn first_non_hex(s: Seq<char>) -> Option<char>
    decreases s.len(),
{
    if s.len() == 0 {
        None
    } else if digit_value(s[0], 16) is Some {
        first_non_hex(s.drop_first())
    } else {
        Some(s[0])
    }
}

/// The byte that two hex digits spell, the first the more significant.
pub open spec fn hex_byte(hi: char, lo: char) -> u8 {
    (digit_value(hi, 16)->Some_0 * 16 + digit_value(lo, 16)->Some_0) as u8
}

/// The colour of a six-digit hex text: each pair of hex digits is a channel;
/// any other text has none.
pub open spec fn hex6_color(h: Seq<char>) -> Option<(u8, u8, u8)> {
    if h.len() == 6 && first_non_hex(h) is None {
        Some((hex_byte(h[0], h[1]), hex_byte(h[2], h[3]), hex_byte(h[4], h[5])))
    } else {
        None
    }
}

/// The channel value of a hex digit repeated twice (`#abc` is `#aabbcc`).
pub open spec fn doubled_digit(c: char) -> u8 {
    (digit_value(c, 16)->Some_0 * 17) as u8
}

/// Opaque white, the default background.
pub open spec fn white() -> Rgba {
    Rgba { r: 255, g: 255, b: 255, a: 255 }
}

/// What `from_hex` returns for the text `h` after its leading `#`s.
pub open spec fn from_hex_result(h: Seq<char>, r: Result<BackgroundOptions, ColorError>) -> bool {
    if utf8_len(h) == 3 {
        match first_non_hex(h) {
            Some(c) => r matches Err(ColorError::InvalidHexDigit(d)) && d == c,
            None => r == Ok::<BackgroundOptions, ColorError>(
                BackgroundOptions {
                    color: Rgba {
                        r: doubled_digit(h[0]),
                        g: doubled_digit(h[1]),
                        b: doubled_digit(h[2]),
                        a: 255,
                    },
                },
            ),
        }
    } else if utf8_len(h) == 6 {
        match hex6_color(h) {
            Some((cr, cg, cb)) => r == Ok::<BackgroundOptions, ColorError>(
                BackgroundOptions { color: Rgba { r: cr, g: cg, b: cb, a: 255 } },
            ),
            None => r matches Err(ColorError::InvalidHexColor(t)) && t@ == h,
        }
    } else {
        r matches Err(ColorError::InvalidHexColorFormat(t)) && t@ == h
    }
}

/// What `parse` returns for the text `s`.
pub open spec fn parse_result(s: Seq<char>, r: Result<BackgroundOptions, ColorError>) -> bool {
    let t = trim(s);
    if t.len() > 0 && t[0] == '#' {
        from_hex_result(strip_leading(t, '#'), r)
    } else if t.contains(',') {
        let parts = split_on(t, ',');
        if parts.len() != 3 {
            r matches Err(ColorError::ComponentCount(n)) && n == parts.len()
        } else {
            match (
                spec_parse_u8(trim(parts[0]), 10),
                spec_parse_u8(trim(parts[1]), 10),
                spec_parse_u8(trim(parts[2]), 10),
            ) {
                (None, _, _) => r matches Err(ColorError::InvalidRed(p)) && p@ == trim(parts[0]),
                (Some(_), None, _) => r matches Err(ColorError::InvalidGreen(p)) && p@ == trim(
                    parts[1],
                ),
                (Some(_), Some(_), None) => r matches Err(ColorError::InvalidBlue(p)) && p@ == trim(
                    parts[2],
                ),
                (Some(cr), Some(cg), Some(cb)) => r == Ok::<BackgroundOptions, ColorError>(
                    BackgroundOptions { color: Rgba { r: cr, g: cg, b: cb, a: 255 } },
                ),
            }
        }
    } else {
        from_hex_result(strip_leading(t, '#'), r)
    }
}

/// Hex digits are ASCII: a text of hex digits has as many bytes as characters.
proof fn lemma_hex_is_ascii(s: Seq<char>)
    requires
        first_non_hex(s) is None,
    ensures
        utf8_len(s) == s.len(),
        forall|i: int| 0 <= i < s.len() ==> (#[trigger] digit_value(s[i], 16)) is Some,
    decreases s.len(),
{
    if s.len() > 0 {
        lemma_hex_is_ascii(s.drop_first());
        assert forall|i: int| 0 <= i < s.len() implies (#[trigger] digit_value(s[i], 16)) is Some by {
            if i > 0 {
                assert(s[i] == s.drop_first()[i - 1]);
            }
        }
        lemma_utf8_len_first(s);
    }
}

/// The byte length of a text is the width of its first character plus the rest.
proof fn lemma_utf8_len_first(s: Seq<char>)
    requires
        s.len() > 0,
    ensures
        utf8_len(s) == crate::text::utf8_width(s[0]) + utf8_len(s.drop_first()),
    decreases s.len(),
{
    if s.len() > 1 {
        lemma_utf8_len_first(s.drop_last());
        assert(s.drop_last().drop_first() =~= s.drop_first().drop_last());
    } else {
        assert(s.drop_first() =~= Seq::<char>::empty());
        assert(s.drop_last() =~= Seq::<char>::empty());
    }
}

/// The three characters of `h`, each doubled, if all are hex digits.
fn hex3(h: &Vec<char>) -> (r: Result<Rgba, char>)
    ensures
        h@.len() >= 3 ==> match first_non_hex(h@.take(3)) {
            Some(c) => r == Err::<Rgba, char>(c),
            None => r == Ok::<Rgba, char>(
                Rgba {
                    r: doubled_digit(h@[0]),
                    g: doubled_digit(h@[1]),
                    b: doubled_digit(h@[2]),
                    a: 255,
                },
            ),
        },
        h@.len() < 3 ==> match first_non_hex(h@) {
            Some(c) => r == Err::<Rgba, char>(c),
            None => true,
        },
{
    let ghost s = if h@.len() >= 3 {
        h@.take(3)
    } else {
        h@
    };
    let mut vals: [u8; 3] = [0, 0, 0];
    let mut i: usize = 0;
    let n = h.len();
    assert(s.skip(0) =~= s);
    while i < 3 && i < n
        invariant
            n == h@.len(),
            i <= 3,
            s == (if h@.len() >= 3 {
                h@.take(3)
            } else {
                h@
            }),
            i <= s.len(),
            first_non_hex(s) == first_non_hex(s.skip(i as int)),
            forall|j: int| 0 <= j < i ==> vals@[j] == doubled_digit(#[trigger] s[j]),
        decreases 3 - i,
    {
        assert(s[i as int] == h@[i as int]);
        assert(s.skip(i as int).drop_first() =~= s.skip(i + 1));
        match digit(h[i], 16) {
            None => {
                assert(s.skip(i as int)[0] == s[i as int]);
                return Err(h[i]);
            },
            Some(d) => {
                vals[i] = (d * 17) as u8;
            },
        }
        i = i + 1;
    }
    if h.len() < 3 {
        assert(s.skip(s.len() as int) =~= Seq::<char>::empty());
        return Ok(Rgba { r: 0, g: 0, b: 0, a: 255 });
    }
    assert(s.skip(3) =~= Seq::<char>::empty());
    assert(vals@[0] == doubled_digit(s[0]));
    assert(vals@[1] == doubled_digit(s[1]));
    assert(vals@[2] == doubled_digit(s[2]));
    Ok(Rgba { r: vals[0], g: vals[1], b: vals[2], a: 255 })
}

/// The byte of two hex digits.
fn hex_byte_of(hi: char, lo: char) -> (r: u8)
    requires
        digit_value(hi, 16) is Some,
        digit_value(lo, 16) is Some,
    ensures
        r == hex_byte(hi, lo),
{
    let h = digit(hi, 16).unwrap();
    let l = digit(lo, 16).unwrap();
    (h * 16 + l) as u8
}

/// The colour of a six-digit hex text.
fn hex6(h: &Vec<char>) -> (r: Option<(u8, u8, u8)>)
    ensures
        r == hex6_color(h@),
{
    if h.len() != 6 || !all_hex_digits(h.as_slice()) {
        return None;
    }
    proof {
        lemma_hex_is_ascii(h@);
    }
    Some((hex_byte_of(h[0], h[1]), hex_byte_of(h[2], h[3]), hex_byte_of(h[4], h[5])))
}

/// Reads the text `h` (after its leading `#`s) as a hex colour.
fn colour_from_hex_chars(h: &Vec<char>) -> (r: Result<BackgroundOptions, ColorError>)
    ensures
        from_hex_result(h@, r),
{
    let n = byte_len(h.as_slice());
    if n == 3 {
        match hex3(h) {
            Err(c) => {
                proof {
                    if h@.len() >= 3 {
                        lemma_first_non_hex_take(h@, 3);
                    } else if first_non_hex(h@) is None {
                        lemma_hex_is_ascii(h@);
                    }
                }
                Err(ColorError::InvalidHexDigit(c))
            },
            Ok(color) => {
                proof {
                    lemma_utf8_len_bounds(h@);
                    if h@.len() < 3 {
                        if first_non_hex(h@) is None {
                            lemma_hex_is_ascii(h@);
                        }
                        assert(false);
                    }
                    assert(h@.len() == 3);
                    assert(h@.take(3) =~= h@);
                }
                Ok(BackgroundOptions { color })
            },
        }
    } else if n == 6 {
        match hex6(h) {
            Some((r, g, b)) => Ok(BackgroundOptions { color: Rgba { r, g, b, a: 255 } }),
            None => Err(ColorError::InvalidHexColor(string_of(h.as_slice()))),
        }
    } else {
        Err(ColorError::InvalidHexColorFormat(string_of(h.as_slice())))
    }
}

/// The first non-hex character of a text with at least `k` characters is that
/// of its first `k` when one of those is no hex digit, and the absence of such
/// a character carries over.
proof fn lemma_first_non_hex_take(s: Seq<char>, k: int)
    requires
        0 <= k <= s.len(),
    ensures
        first_non_hex(s.take(k)) is Some ==> first_non_hex(s) == first_non_hex(s.take(k)),
        first_non_hex(s) is None ==> first_non_hex(s.take(k)) is None,
    decreases k,
{
    if k > 0 {
        assert(s.take(k).drop_first() =~= s.drop_first().take(k - 1));
        lemma_first_non_hex_take(s.drop_first(), k - 1);
    }
}

impl Default for BackgroundOptions {
    fn default() -> (o: BackgroundOptions)
        ensures
            o.color == white(),
    {
        BackgroundOptions { color: Rgba { r: 255, g: 255, b: 255, a: 255 } }
    }
}

impl BackgroundOptions {
    pub fn new(color: Rgba) -> (o: BackgroundOptions)
        ensures
            o.color == color,
    {
        BackgroundOptions { color }
    }

    /// An opaque colour.
    pub fn from_rgb(r: u8, g: u8, b: u8) -> (o: BackgroundOptions)
        ensures
            o.color == (Rgba { r, g, b, a: 255 }),
    {
        BackgroundOptions { color: Rgba { r, g, b, a: 255 } }
    }

    /// Reads `#rgb` or `#rrggbb` (any number of leading `#`, digits in either
    /// case); lengths are counted in bytes.
    pub fn from_hex(hex: &str) -> (r: Result<BackgroundOptions, ColorError>)
        ensures
            from_hex_result(strip_leading(hex@, '#'), r),
    {
        let cs = chars_of(hex);
        let h = strip_leading_char(cs.as_slice(), '#');
        colour_from_hex_chars(&h)
    }

    /// Reads a colour: hex when it starts with `#`, else three comma-separated
    /// decimal components when it holds a comma, else hex without `#`.
    pub fn parse(input: &str) -> (r: Result<BackgroundOptions, ColorError>)
        ensures
            parse_result(input@, r),
    {
        let cs = chars_of(input);
        let t = trimmed(cs.as_slice());
        if t.len() > 0 && t[0] == '#' {
            let h = strip_leading_char(t.as_slice(), '#');
            return colour_from_hex_chars(&h);
        }
        let mut has_comma = false;
        let mut i: usize = 0;
        while i < t.len()
            invariant
                i <= t@.len(),
                has_comma == (exists|j: int| 0 <= j < i && t@[j] == ','),
            decreases t@.len() - i,
        {
            if t[i] == ',' {
                has_comma = true;
            }
            i = i + 1;
        }
        assert(has_comma == t@.contains(','));
        if has_comma {
            let raw = split_at_char(t.as_slice(), ',');
            if raw.len() != 3 {
                return Err(ColorError::ComponentCount(raw.len()));
            }
            let p0 = trimmed(raw[0].as_slice());
            let p1 = trimmed(raw[1].as_slice());
            let p2 = trimmed(raw[2].as_slice());
            let r = match parse_u8(p0.as_slice(), 10) {
                Some(v) => v,
                None => return Err(ColorError::InvalidRed(string_of(p0.as_slice()))),
            };
            let g = match parse_u8(p1.as_slice(), 10) {
                Some(v) => v,
                None => return Err(ColorError::InvalidGreen(string_of(p1.as_slice()))),
            };
            let b = match parse_u8(p2.as_slice(), 10) {
                Some(v) => v,
                None => return Err(ColorError::InvalidBlue(string_of(p2.as_slice()))),
            };
            return Ok(Self::from_rgb(r, g, b));
        }
        let h = strip_leading_char(t.as_slice(), '#');
        colour_from_hex_chars(&h)
    }
}

/// What `parse_hex` returns: the colour of a six-byte hex text.
pub open spec fn parse_hex_result(h: Seq<char>) -> Option<(u8, u8, u8)> {
    if utf8_len(h) != 6 {
        None
    } else {
        hex6_color(h)
    }
}

/// What `parse_color` returns.
pub open spec fn parse_color_result(s: Seq<char>) -> Option<(u8, u8, u8)> {
    let t = trim(s);
    if t.len() > 0 && t[0] == '#' {
        parse_hex_result(t.drop_first())
    } else if utf8_len(t) == 6 && first_non_hex(t) is None {
        parse_hex_result(t)
    } else if t.contains(',') && split_on(t, ',').len() == 3 {
        let parts = split_on(t, ',');
        match (
            spec_parse_u8(trim(parts[0]), 10),
            spec_parse_u8(trim(parts[1]), 10),
            spec_parse_u8(trim(parts[2]), 10),
        ) {
            (Some(r), Some(g), Some(b)) => Some((r, g, b)),
            _ => None,
        }
    } else {
        None
    }
}

/// Reads six hex digits (in bytes) as a colour; `None` otherwise.
fn parse_hex_chars(h: &Vec<char>) -> (r: Option<(u8, u8, u8)>)
    ensures
        r == parse_hex_result(h@),
{
    if byte_len(h.as_slice()) != 6 {
        return None;
    }
    hex6(h)
}

/// Trimming the start never lengthens a text, and shortens it when it starts
/// with white space.
proof fn lemma_trim_start_shortens(s: Seq<char>)
    ensures
        trim_start(s).len() <= s.len(),
        s.len() > 0 && is_white_space(s[0]) ==> trim_start(s).len() < s.len(),
    decreases s.len(),
{
    if s.len() > 0 && is_white_space(s[0]) {
        lemma_trim_start_shortens(s.drop_first());
    }
}

/// Trimming the end never lengthens a text, and shortens it when it ends with
/// white space.
proof fn lemma_trim_end_shortens(s: Seq<char>)
    ensures
        trim_end(s).len() <= s.len(),
        s.len() > 0 && is_white_space(s.last()) ==> trim_end(s).len() < s.len(),
    decreases s.len(),
{
    if s.len() > 0 && is_white_space(s.last()) {
        lemma_trim_end_shortens(s.drop_last());
    }
}

/// The `#` before a hex colour is optional: a text with no white space at its
/// ends and no comma reads the same with a `#` in front.
pub proof fn lemma_hash_prefix_optional(h: Seq<char>, r: Result<BackgroundOptions, ColorError>)
    requires
        trim(h) == h,
        !h.contains(','),
    ensures
        parse_result(seq!['#'] + h, r) == parse_result(h, r),
{
    let u = seq!['#'] + h;
    assert(u[0] == '#');
    assert(u.drop_first() =~= h);
    if h.len() > 0 {
        assert(u.last() == h.last());
        assert(trim_start(u) == u);
        lemma_trim_start_shortens(h);
        lemma_trim_end_shortens(trim_start(h));
        if trim_start(h).len() == h.len() {
            assert(trim_start(h) =~= h);
            lemma_trim_end_shortens(h);
        }
        assert(!is_white_space(h.last()));
    } else {
        assert(u =~= seq!['#']);
        assert(trim_start(u) == u);
        assert(trim_end(u) == u);
    }
    assert(trim(u) == u);
    assert(strip_leading(u, '#') == strip_leading(h, '#'));
}

/// Reads a colour in hex (`#FFFFFF` or `FFFFFF`) or decimal (`255,255,255`)
/// notation.
pub fn parse_color(color: &str) -> (r: Option<(u8, u8, u8)>)
    ensures
        r == parse_color_result(color@),
{
    let cs = chars_of(color);
    let t = trimmed(cs.as_slice());
    if t.len() > 0 && t[0] == '#' {
        let mut rest: Vec<char> = Vec::new();
        let mut i: usize = 1;
        while i < t.len()
            invariant
                1 <= i <= t@.len(),
                rest@ == t@.subrange(1, i as int),
            decreases t@.len() - i,
        {
            rest.push(t[i]);
            i = i + 1;
            assert(rest@ =~= t@.subrange(1, i as int));
        }
        assert(rest@ =~= t@.drop_first());
        return parse_hex_chars(&rest);
    }
    let all_hex = all_hex_digits(t.as_slice());
    if byte_len(t.as_slice()) == 6 && all_hex {
        return parse_hex_chars(&t);
    }
    let mut has_comma = false;
    let mut i: usize = 0;
    while i < t.len()
        invariant
            i <= t@.len(),
            has_comma == (exists|j: int| 0 <= j < i && t@[j] == ','),
        decreases t@.len() - i,
    {
        if t[i] == ',' {
            has_comma = true;
        }
        i = i + 1;
    }
    assert(has_comma == t@.contains(','));
    if has_comma {
        let parts = split_at_char(t.as_slice(), ',');
        if parts.len() == 3 {
            let p0 = trimmed(parts[0].as_slice());
            let p1 = trimmed(parts[1].as_slice());
            let p2 = trimmed(parts[2].as_slice());
            let r = match parse_u8(p0.as_slice(), 10) {
                Some(v) => v,
                None => return None,
            };
            let g = match parse_u8(p1.as_slice(), 10) {
                Some(v) => v,
                None => return None,
            };
            let b = match parse_u8(p2.as_slice(), 10) {
                Some(v) => v,
                None => return None,
            };
            return Some((r, g, b));
        }
    }
    None
}

/// Every character is a hex digit.
fn all_hex_digits(s: &[char]) -> (b: bool)
    ensures
        b == (first_non_hex(s@) is None),
{
    let mut i: usize = 0;
    assert(s@.skip(0) =~= s@);
    while i < s.len()
        invariant
            i <= s@.len(),
            first_non_hex(s@) == first_non_hex(s@.skip(i as int)),
        decreases s@.len() - i,
    {
        assert(s@.skip(i as int).drop_first() =~= s@.skip(i + 1));
        if digit(s[i], 16).is_none() {
            assert(s@.skip(i as int)[0] == s@[i as int]);
            return false;
        }
        i = i + 1;
    }
    assert(s@.skip(i as int) =~= Seq::<char>::empty());
    true
}

/// The hex digit of `n` (below 16), in upper or lower case.
pub open spec fn hex_digit_char(n: int, upper: bool) -> char {
    if n < 10 {
        ((n + 48) as u8) as char
    } else if upper {
        ((n + 55) as u8) as char
    } else {
        ((n + 87) as u8) as char
    }
}

/// A byte as two hex digits, `{:02X}` or `{:02x}`.
pub open spec fn hex_pair_text(v: u8, upper: bool) -> Seq<char> {
    seq![hex_digit_char(v as int / 16, upper), hex_digit_char(v as int % 16, upper)]
}

/// A hex digit reads back as its value.
proof fn lemma_hex_digit_char(n: int, upper: bool)
    requires
        0 <= n < 16,
    ensures
        digit_value(hex_digit_char(n, upper), 16) == Some(n),
{
}

/// A text of hex digits only has no first non-hex character.
proof fn lemma_all_hex_no_stop(s: Seq<char>)
    requires
        forall|i: int| 0 <= i < s.len() ==> (#[trigger] digit_value(s[i], 16)) is Some,
    ensures
        first_non_hex(s) is None,
    decreases s.len(),
{
    if s.len() > 0 {
        assert forall|i: int| 0 <= i < s.len() - 1 implies (#[trigger] digit_value(
            s.drop_first()[i],
            16,
        )) is Some by {
            assert(s.drop_first()[i] == s[i + 1]);
        }
        lemma_all_hex_no_stop(s.drop_first());
    }
}

/// The six hex digits of a colour, two per channel.
pub open spec fn hex6_text(r: u8, g: u8, b: u8, upper: bool) -> Seq<char> {
    hex_pair_text(r, upper) + hex_pair_text(g, upper) + hex_pair_text(b, upper)
}

/// Every colour written as six hex digits, in either case, with or without a
/// `#`, reads back as that colour.
pub proof fn lemma_hex_color_round_trip(r: u8, g: u8, b: u8, upper: bool)
    ensures
        parse_color_result(seq!['#'] + hex6_text(r, g, b, upper)) == Some((r, g, b)),
        parse_color_result(hex6_text(r, g, b, upper)) == Some((r, g, b)),
{
    let h = hex6_text(r, g, b, upper);
    lemma_hex_digit_char(r as int / 16, upper);
    lemma_hex_digit_char(r as int % 16, upper);
    lemma_hex_digit_char(g as int / 16, upper);
    lemma_hex_digit_char(g as int % 16, upper);
    lemma_hex_digit_char(b as int / 16, upper);
    lemma_hex_digit_char(b as int % 16, upper);
    assert(h.len() == 6);
    assert(h[0] == hex_digit_char(r as int / 16, upper));
    assert(h[1] == hex_digit_char(r as int % 16, upper));
    assert(h[2] == hex_digit_char(g as int / 16, upper));
    assert(h[3] == hex_digit_char(g as int % 16, upper));
    assert(h[4] == hex_digit_char(b as int / 16, upper));
    assert(h[5] == hex_digit_char(b as int % 16, upper));
    assert forall|i: int| 0 <= i < h.len() implies (#[trigger] digit_value(h[i], 16)) is Some by {
        if i == 0 {
        } else if i == 1 {
        } else if i == 2 {
        } else if i == 3 {
        } else if i == 4 {
        } else {
        }
    }
    lemma_all_hex_no_stop(h);
    lemma_hex_is_ascii(h);
    assert(hex_byte(h[0], h[1]) == r);
    assert(hex_byte(h[2], h[3]) == g);
    assert(hex_byte(h[4], h[5]) == b);
    assert(hex6_color(h) == Some((r, g, b)));
    assert(!is_white_space(h[0]) && !is_white_space(h[5]));
    assert(trim_start(h) == h);
    assert(trim_end(h) == h);
    let u = seq!['#'] + h;
    assert(u[0] == '#' && u.last() == h[5]);
    assert(trim_start(u) == u);
    assert(trim_end(u) == u);
    assert(u.drop_first() =~= h);
}

/// A three-digit hex colour is its six-digit form with each digit doubled.
pub proof fn lemma_shorthand_doubles(a: char, b: char, c: char, r: Result<BackgroundOptions, ColorError>)
    requires
        digit_value(a, 16) is Some,
        digit_value(b, 16) is Some,
        digit_value(c, 16) is Some,
    ensures
        from_hex_result(seq![a, b, c], r) == from_hex_result(seq![a, a, b, b, c, c], r),
        from_hex_result(seq![a, b, c], r) == (r == Ok::<BackgroundOptions, ColorError>(
            BackgroundOptions {
                color: Rgba { r: doubled_digit(a), g: doubled_digit(b), b: doubled_digit(c), a: 255 },
            },
        )),
{
    let s3 = seq![a, b, c];
    let s6 = seq![a, a, b, b, c, c];
    assert forall|i: int| 0 <= i < s3.len() implies (#[trigger] digit_value(s3[i], 16)) is Some by {
    }
    assert forall|i: int| 0 <= i < s6.len() implies (#[trigger] digit_value(s6[i], 16)) is Some by {
    }
    lemma_all_hex_no_stop(s3);
    lemma_all_hex_no_stop(s6);
    lemma_hex_is_ascii(s3);
    lemma_hex_is_ascii(s6);
    assert(hex_byte(a, a) == doubled_digit(a));
    assert(hex_byte(b, b) == doubled_digit(b));
    assert(hex_byte(c, c) == doubled_digit(c));
}

/// A decimal numeral is a non-empty run of decimal digits spelling its number.
proof fn lemma_decimal_digits(n: nat)
    ensures
        decimal_digits(n).len() >= 1,
        all_digits(decimal_digits(n), 10),
        digits_value(decimal_digits(n), 10) == n,
    decreases n,
{
    let last = (((n % 10) + 48) as u8) as char;
    assert(digit_value(last, 10) == Some((n % 10) as int));
    if n >= 10 {
        lemma_decimal_digits(n / 10);
        let d = decimal_digits(n);
        assert(d.drop_last() =~= decimal_digits(n / 10));
        assert forall|i: int| 0 <= i < d.len() implies (#[trigger] digit_value(d[i], 10)) is Some by {
            if i < d.len() - 1 {
                assert(d[i] == decimal_digits(n / 10)[i]);
            }
        }
        assert(d.last() == last);
        assert((n / 10) * 10 + n % 10 == n) by (nonlinear_arith);
        assert(digits_value(d, 10) == digits_value(d.drop_last(), 10) * 10 + (n % 10));
    } else {
        assert(decimal_digits(n) =~= seq![last]);
        assert(seq![last].drop_last() =~= Seq::<char>::empty());
        assert(digits_value(seq![last], 10) == digits_value(Seq::<char>::empty(), 10) * 10 + n);
    }
}

/// A text in which some character is no hex digit has a first such character.
proof fn lemma_non_hex_stops(s: Seq<char>, i: int)
    requires
        0 <= i < s.len(),
        digit_value(s[i], 16) is None,
    ensures
        first_non_hex(s) is Some,
    decreases i,
{
    if i > 0 && digit_value(s[0], 16) is Some {
        assert(s.drop_first()[i - 1] == s[i]);
        lemma_non_hex_stops(s.drop_first(), i - 1);
    }
}

/// Appending a text without the separator extends the last part.
proof fn lemma_split_append(p: Seq<char>, y: Seq<char>, sep: char)
    requires
        !y.contains(sep),
    ensures
        split_on(p + y, sep) == split_on(p, sep).update(
            split_on(p, sep).len() - 1,
            split_on(p, sep).last() + y,
        ),
    decreases y.len(),
{
    lemma_split_on_nonempty(p, sep);
    if y.len() == 0 {
        assert(p + y =~= p);
        assert(split_on(p, sep).last() + y =~= split_on(p, sep).last());
        assert(split_on(p, sep).update(split_on(p, sep).len() - 1, split_on(p, sep).last())
            =~= split_on(p, sep));
    } else {
        let y0 = y.drop_last();
        assert(!y0.contains(sep)) by {
            if y0.contains(sep) {
                let k = choose|k: int| 0 <= k < y0.len() && y0[k] == sep;
                assert(y[k] == sep);
            }
        }
        assert(y.last() != sep) by {
            assert(y[y.len() - 1] == y.last());
        }
        lemma_split_append(p, y0, sep);
        assert((p + y).drop_last() =~= p + y0);
        assert((p + y).last() == y.last());
        let sp = split_on(p, sep);
        assert((sp.last() + y0).push(y.last()) =~= sp.last() + y);
        assert(split_on(p + y, sep) =~= sp.update(sp.len() - 1, sp.last() + y));
    }
}

/// A decimal colour written `r, g, b` reads back as that colour.
pub proof fn lemma_decimal_color_round_trip(r: u8, g: u8, b: u8)
    ensures
        parse_color_result(
            decimal_digits(r as nat) + seq![',', ' '] + decimal_digits(g as nat) + seq![',', ' ']
                + decimal_digits(b as nat),
        ) == Some((r, g, b)),
{
    let dr = decimal_digits(r as nat);
    let dg = decimal_digits(g as nat);
    let db = decimal_digits(b as nat);
    lemma_decimal_digits(r as nat);
    lemma_decimal_digits(g as nat);
    lemma_decimal_digits(b as nat);
    let t = dr + seq![',', ' '] + dg + seq![',', ' '] + db;
    let pg = seq![' '] + dg;
    let pb = seq![' '] + db;
    assert(t =~= dr + seq![','] + pg + seq![','] + pb);
    // no part holds a comma
    assert(!dr.contains(',')) by {
        if dr.contains(',') {
            let k = choose|k: int| 0 <= k < dr.len() && dr[k] == ',';
            assert(digit_value(dr[k], 10) is Some);
        }
    }
    assert(!pg.contains(',')) by {
        if pg.contains(',') {
            let k = choose|k: int| 0 <= k < pg.len() && pg[k] == ',';
            assert(pg[k] == dg[k - 1]);
            assert(digit_value(dg[k - 1], 10) is Some);
        }
    }
    assert(!pb.contains(',')) by {
        if pb.contains(',') {
            let k = choose|k: int| 0 <= k < pb.len() && pb[k] == ',';
            assert(pb[k] == db[k - 1]);
            assert(digit_value(db[k - 1], 10) is Some);
        }
    }
    // splitting
    let e = Seq::<char>::empty();
    lemma_split_append(e, dr, ',');
    assert(e + dr =~= dr);
    assert(split_on(e, ',') =~= seq![e]);
    assert(split_on(dr, ',') =~= seq![dr]);
    let a1 = dr + seq![','];
    assert(a1.drop_last() =~= dr);
    assert(split_on(a1, ',') =~= seq![dr, e]);
    lemma_split_append(a1, pg, ',');
    assert(split_on(a1 + pg, ',') =~= seq![dr, pg]);
    let a2 = a1 + pg + seq![','];
    assert(a2.drop_last() =~= a1 + pg);
    assert(split_on(a2, ',') =~= seq![dr, pg, e]);
    lemma_split_append(a2, pb, ',');
    assert(a2 + pb =~= t);
    assert(split_on(t, ',') =~= seq![dr, pg, pb]);
    // trimming
    assert(trim_start(t) == t);
    assert(t.last() == db.last());
    assert(digit_value(db[db.len() - 1], 10) is Some);
    assert(trim_end(t) == t);
    assert(trim_start(dr) == dr && trim_end(dr) == dr) by {
        assert(digit_value(dr[0], 10) is Some);
        assert(digit_value(dr[dr.len() - 1], 10) is Some);
    }
    assert(trim(pg) == dg) by {
        assert(pg.drop_first() =~= dg);
        assert(digit_value(dg[0], 10) is Some);
        assert(digit_value(dg[dg.len() - 1], 10) is Some);
        assert(trim_start(dg) == dg);
    }
    assert(trim(pb) == db) by {
        assert(pb.drop_first() =~= db);
        assert(digit_value(db[0], 10) is Some);
        assert(digit_value(db[db.len() - 1], 10) is Some);
        assert(trim_start(db) == db);
    }
    // the first character is a digit; the comma is no hex digit
    assert(t[0] == dr[0]);
    assert(digit_value(dr[0], 10) is Some);
    assert(t[dr.len() as int] == ',');
    lemma_non_hex_stops(t, dr.len() as int);
    assert(t.contains(','));
    assert(spec_parse_u8(dr, 10) == Some(r));
    assert(spec_parse_u8(dg, 10) == Some(g));
    assert(spec_parse_u8(db, 10) == Some(b));
}

} // verus!
