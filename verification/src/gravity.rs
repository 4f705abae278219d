//! Where a crop window is anchored within the image.
use vstd::prelude::*;
use crate::decimal::Decimal;
use crate::text::{ascii_lower_seq, chars_of, lower_all, same_chars};

verus! {

/// Anchor of a crop window: a corner, the middle of an edge, or the centre.
#[derive(Clone, Copy, Debug, PartialEq, Eq, Structural)]
pub enum GravityOptions {
    TopLeft,
    Top,
    TopRight,
    Center,
    CenterLeft,
    CenterRight,
    Bottom,
    BottomLeft,
    BottomRight,
}

/// The name of each gravity, as printed and as parsed.
pub open spec fn gravity_name(g: GravityOptions) -> Seq<char> {
    match g {
        GravityOptions::Top => seq!['t', 'o', 'p'],
        GravityOptions::TopLeft => seq!['t', 'o', 'p', '-', 'l', 'e', 'f', 't'],
        GravityOptions::TopRight => seq!['t', 'o', 'p', '-', 'r', 'i', 'g', 'h', 't'],
        GravityOptions::Center => seq!['c', 'e', 'n', 't', 'e', 'r'],
        GravityOptions::CenterLeft => seq!['c', 'e', 'n', 't', 'e', 'r', '-', 'l', 'e', 'f', 't'],
        GravityOptions::CenterRight => seq![
            'c',
            'e',
            'n',
            't',
            'e',
            'r',
            '-',
            'r',
            'i',
            'g',
            'h',
            't',
        ],
        GravityOptions::Bottom => seq!['b', 'o', 't', 't', 'o', 'm'],
        GravityOptions::BottomLeft => seq!['b', 'o', 't', 't', 'o', 'm', '-', 'l', 'e', 'f', 't'],
        GravityOptions::BottomRight => seq![
            'b',
            'o',
            't',
            't',
            'o',
            'm',
            '-',
            'r',
            'i',
            'g',
            'h',
            't',
        ],
    }
}

/// The gravity whose name is `s` once ASCII letters are lower-cased.
pub open spec fn gravity_named(s: Seq<char>) -> Option<GravityOptions> {
    let l = ascii_lower_seq(s);
    if l =~= gravity_name(GravityOptions::Top) {
        Some(GravityOptions::Top)
    } else if l =~= gravity_name(GravityOptions::TopLeft) {
        Some(GravityOptions::TopLeft)
    } else if l =~= gravity_name(GravityOptions::TopRight) {
        Some(GravityOptions::TopRight)
    } else if l =~= gravity_name(GravityOptions::Center) {
        Some(GravityOptions::Center)
    } else if l =~= gravity_name(GravityOptions::CenterLeft) {
        Some(GravityOptions::CenterLeft)
    } else if l =~= gravity_name(GravityOptions::CenterRight) {
        Some(GravityOptions::CenterRight)
    } else if l =~= gravity_name(GravityOptions::Bottom) {
        Some(GravityOptions::Bottom)
    } else if l =~= gravity_name(GravityOptions::BottomLeft) {
        Some(GravityOptions::BottomLeft)
    } else if l =~= gravity_name(GravityOptions::BottomRight) {
        Some(GravityOptions::BottomRight)
    } else {
        None
    }
}

/// Horizontal anchor in millionths of the free width: left 0, middle one half, right 1.
pub open spec fn abscissa_micros(g: GravityOptions) -> int {
    match g {
        GravityOptions::CenterLeft | GravityOptions::TopLeft | GravityOptions::BottomLeft => 0,
        GravityOptions::CenterRight | GravityOptions::TopRight | GravityOptions::BottomRight => 1_000_000,
        _ => 500_000,
    }
}

/// Vertical anchor in millionths of the free height: top 0, middle one half, bottom 1.
pub open spec fn ordinate_micros(g: GravityOptions) -> int {
    match g {
        GravityOptions::Top | GravityOptions::TopLeft | GravityOptions::TopRight => 0,
        GravityOptions::Bottom | GravityOptions::BottomLeft | GravityOptions::BottomRight => 1_000_000,
        _ => 500_000,
    }
}

/// A string that names no gravity.
#[derive(Clone, Copy, Debug, PartialEq, Eq, Structural)]
pub enum GravityParseError {
    UnknownGravity,
}

impl GravityParseError {
    /// The error message.
    pub fn to_string(&self) -> (r: String)
        ensures
            r@ == seq!['U', 'n', 'k', 'n', 'o', 'w', 'n', ' ', 'g', 'r', 'a', 'v', 'i', 't', 'y'],
    {
        let r = String::from_str("Unknown gravity");
        proof {
            reveal_strlit("Unknown gravity");
        }
        assert(r@ =~= seq!['U', 'n', 'k', 'n', 'o', 'w', 'n', ' ', 'g', 'r', 'a', 'v', 'i', 't', 'y']);
        r
    }
}

impl Default for GravityOptions {
    fn default() -> (g: GravityOptions)
        ensures
            g == GravityOptions::TopLeft,
    {
        GravityOptions::TopLeft
    }
}

impl GravityOptions {
    /// The name of the gravity, such as `top-left`.
    pub fn as_str(&self) -> (r: &'static str)
        ensures
            r@ == gravity_name(*self),
    {
        match self {
            GravityOptions::Top => {
                proof {
                    reveal_strlit("top");
                }
                "top"
            },
            GravityOptions::TopLeft => {
                proof {
                    reveal_strlit("top-left");
                }
                "top-left"
            },
            GravityOptions::TopRight => {
                proof {
                    reveal_strlit("top-right");
                }
                "top-right"
            },
            GravityOptions::Center => {
                proof {
                    reveal_strlit("center");
                }
                "center"
            },
            GravityOptions::CenterLeft => {
                proof {
                    reveal_strlit("center-left");
                }
                "center-left"
            },
            GravityOptions::CenterRight => {
                proof {
                    reveal_strlit("center-right");
                }
                "center-right"
            },
            GravityOptions::Bottom => {
                proof {
                    reveal_strlit("bottom");
                }
                "bottom"
            },
            GravityOptions::BottomLeft => {
                proof {
                    reveal_strlit("bottom-left");
                }
                "bottom-left"
            },
            GravityOptions::BottomRight => {
                proof {
                    reveal_strlit("bottom-right");
                }
                "bottom-right"
            },
        }
    }

    /// The name of the gravity as an owned string (what it displays as).
    pub fn to_string(&self) -> (r: String)
        ensures
            r@ == gravity_name(*self),
    {
        String::from_str(self.as_str())
    }

    /// Reads a gravity from its name; letters may be in either case. Lower-casing
    /// only ASCII letters accepts exactly the texts that full Unicode
    /// lower-casing would: no other character lower-cases into a name.
    pub fn parse(s: &str) -> (r: Result<GravityOptions, GravityParseError>)
        ensures
            r == (match gravity_named(s@) {
                Some(g) => Ok(g),
                None => Err(GravityParseError::UnknownGravity),
            }),
    {
        let cs = chars_of(s);
        let l = lower_all(&cs);
        let all = [
            GravityOptions::Top,
            GravityOptions::TopLeft,
            GravityOptions::TopRight,
            GravityOptions::Center,
            GravityOptions::CenterLeft,
            GravityOptions::CenterRight,
            GravityOptions::Bottom,
            GravityOptions::BottomLeft,
            GravityOptions::BottomRight,
        ];
        let mut i: usize = 0;
        while i < 9
            invariant
                i <= 9,
                l@ == ascii_lower_seq(s@),
                all@ == seq![
                    GravityOptions::Top,
                    GravityOptions::TopLeft,
                    GravityOptions::TopRight,
                    GravityOptions::Center,
                    GravityOptions::CenterLeft,
                    GravityOptions::CenterRight,
                    GravityOptions::Bottom,
                    GravityOptions::BottomLeft,
                    GravityOptions::BottomRight,
                ],
                forall|j: int| 0 <= j < i ==> !(l@ =~= gravity_name(#[trigger] all@[j])),
            decreases 9 - i,
        {
            let g = all[i];
            let name = chars_of(g.as_str());
            if same_chars(&l, &name) {
                return Ok(g);
            }
            i = i + 1;
        }
        assert(!(l@ =~= gravity_name(all@[8])));
        Err(GravityParseError::UnknownGravity)
    }

    /// Horizontal anchor: 0 on the left, one half in the middle, 1 on the right.
    pub fn abscissa_coef(&self) -> (c: Decimal)
        ensures
            c.micros == abscissa_micros(*self),
    {
        match self {
            GravityOptions::CenterLeft | GravityOptions::TopLeft | GravityOptions::BottomLeft => {
                Decimal::from_micros(0)
            },
            GravityOptions::CenterRight | GravityOptions::TopRight | GravityOptions::BottomRight => {
                Decimal::from_micros(1_000_000)
            },
            _ => Decimal::from_micros(500_000),
        }
    }

    /// Vertical anchor: 0 at the top, one half in the middle, 1 at the bottom.
    pub fn ordinate_coef(&self) -> (c: Decimal)
        ensures
            c.micros == ordinate_micros(*self),
    {
        match self {
            GravityOptions::Top | GravityOptions::TopLeft | GravityOptions::TopRight => {
                Decimal::from_micros(0)
            },
            GravityOptions::Bottom | GravityOptions::BottomLeft | GravityOptions::BottomRight => {
                Decimal::from_micros(1_000_000)
            },
            _ => Decimal::from_micros(500_000),
        }
    }

    /// Both anchors, horizontal first.
    pub fn as_coef(&self) -> (c: (Decimal, Decimal))
        ensures
            c.0.micros == abscissa_micros(*self),
            c.1.micros == ordinate_micros(*self),
    {
        (self.abscissa_coef(), self.ordinate_coef())
    }
}

/// Every gravity reads back from the name it prints as.
pub proof fn lemma_gravity_name_round_trip(g: GravityOptions)
    ensures
        gravity_named(gravity_name(g)) == Some(g),
{
    assert(ascii_lower_seq(gravity_name(g)) =~= gravity_name(g));
}

/// Reading a gravity ignores the case of ASCII letters.
pub proof fn lemma_gravity_case_insensitive(s: Seq<char>)
    ensures
        gravity_named(ascii_lower_seq(s)) == gravity_named(s),
{
    assert(ascii_lower_seq(ascii_lower_seq(s)) =~= ascii_lower_seq(s));
}

impl std::str::FromStr for GravityOptions {
    type Err = GravityParseError;

    /// Reads a gravity from its name (the same as `parse`).
    fn from_str(s: &str) -> (r: Result<GravityOptions, GravityParseError>)
        ensures
            r == (match gravity_named(s@) {
                Some(g) => Ok(g),
                None => Err(GravityParseError::UnknownGravity),
            }),
    {
        GravityOptions::parse(s)
    }
}

} // verus!
