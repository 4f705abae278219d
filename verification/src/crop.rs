//! The crop window: its options, and where it falls within an image.
use vstd::prelude::*;
use crate::coord::{Coord, CoordError, coord_error_message, spec_parse_coord};
use crate::decimal::{
    Decimal,
    clamp_i32,
    decimal_display,
    decimal_repr,
    round_div,
    round_div_i128,
};
use crate::gravity::{GravityOptions, abscissa_micros, ordinate_micros};

verus! {

/// Size and offset of the crop window, each optional, in pixels or percent.
#[derive(Clone, Copy, Debug, PartialEq, Eq, Structural)]
pub struct CropOptions {
    pub width: Option<Coord>,
    pub height: Option<Coord>,
    pub offset_x: Option<Coord>,
    pub offset_y: Option<Coord>,
}

/// Which offset of a crop is out of range.
#[derive(Clone, Copy, Debug, PartialEq, Eq, Structural)]
pub enum CropAxis {
    X,
    Y,
}

/// Why crop options are refused.
#[derive(Clone, Copy, Debug, PartialEq, Eq, Structural)]
pub enum CropError {
    /// A coordinate could not be read.
    Coord(CoordError),
    /// A percentage offset lies outside -100% ..= +100%.
    OffsetOutOfRange(CropAxis, Decimal),
}

impl CropError {
    /// The error message; an offset out of range is shown as a percentage.
    pub fn to_string(&self) -> (r: String)
        ensures
            r@ == (match *self {
                CropError::Coord(e) => coord_error_message(e),
                CropError::OffsetOutOfRange(axis, p) => (match axis {
                    CropAxis::X => "offset_x"@,
                    CropAxis::Y => "offset_y"@,
                }) + " percent must be between -100% and +100%, got "@ + decimal_repr(p) + "%"@,
            }),
    {
        match self {
            CropError::Coord(e) => e.to_string(),
            CropError::OffsetOutOfRange(axis, p) => {
                let name = match axis {
                    CropAxis::X => "offset_x",
                    CropAxis::Y => "offset_y",
                };
                let value = decimal_display(*p);
                String::from_str(name).concat(" percent must be between -100% and +100%, got ").concat(
                    value.as_str(),
                ).concat("%")
            },
        }
    }
}

/// The coordinate read from an optional text.
pub open spec fn spec_parse_opt(s: Option<&str>) -> Result<Option<Coord>, CoordError> {
    match s {
        Some(v) => match spec_parse_coord(v@) {
            Ok(c) => Ok(Some(c)),
            Err(e) => Err(e),
        },
        None => Ok(None),
    }
}

/// A percentage offset outside -100% ..= +100%.
pub open spec fn offset_out_of_range(c: Option<Coord>) -> bool {
    match c {
        Some(Coord::Percent(p)) => p.micros < -100_000_000 || p.micros > 100_000_000,
        _ => false,
    }
}

impl CropOptions {
    /// Reads the four optional coordinates, in the order width, height, x, y.
    pub fn new(x: Option<&str>, y: Option<&str>, offset_x: Option<&str>, offset_y: Option<&str>) -> (r:
        Result<CropOptions, CoordError>)
        ensures
            r == (match (
                spec_parse_opt(x),
                spec_parse_opt(y),
                spec_parse_opt(offset_x),
                spec_parse_opt(offset_y),
            ) {
                (Err(e), _, _, _) => Err(e),
                (Ok(_), Err(e), _, _) => Err(e),
                (Ok(_), Ok(_), Err(e), _) => Err(e),
                (Ok(_), Ok(_), Ok(_), Err(e)) => Err(e),
                (Ok(w), Ok(h), Ok(ox), Ok(oy)) => Ok(
                    CropOptions { width: w, height: h, offset_x: ox, offset_y: oy },
                ),
            }),
    {
        let width = match Coord::parse_opt(x) {
            Ok(c) => c,
            Err(e) => return Err(e),
        };
        let height = match Coord::parse_opt(y) {
            Ok(c) => c,
            Err(e) => return Err(e),
        };
        let ox = match Coord::parse_opt(offset_x) {
            Ok(c) => c,
            Err(e) => return Err(e),
        };
        let oy = match Coord::parse_opt(offset_y) {
            Ok(c) => c,
            Err(e) => return Err(e),
        };
        Ok(CropOptions { width, height, offset_x: ox, offset_y: oy })
    }

    /// Some size or offset is given.
    pub fn is_enabled(&self) -> (b: bool)
        ensures
            b == (self.offset_x is Some || self.offset_y is Some || self.width is Some
                || self.height is Some),
    {
        self.offset_x.is_some() || self.offset_y.is_some() || self.width.is_some()
            || self.height.is_some()
    }

    /// Percentage offsets must lie within -100% ..= +100%; pixel offsets are free.
    pub fn validate(&self) -> (r: Result<(), CropError>)
        ensures
            r == (if offset_out_of_range(self.offset_x) {
                Err(CropError::OffsetOutOfRange(CropAxis::X, self.offset_x->Some_0->Percent_0))
            } else if offset_out_of_range(self.offset_y) {
                Err(CropError::OffsetOutOfRange(CropAxis::Y, self.offset_y->Some_0->Percent_0))
            } else {
                Ok(())
            }),
    {
        if let Some(Coord::Percent(p)) = self.offset_x {
            if p.micros < -100_000_000 || p.micros > 100_000_000 {
                return Err(CropError::OffsetOutOfRange(CropAxis::X, p));
            }
        }
        if let Some(Coord::Percent(p)) = self.offset_y {
            if p.micros < -100_000_000 || p.micros > 100_000_000 {
                return Err(CropError::OffsetOutOfRange(CropAxis::Y, p));
            }
        }
        Ok(())
    }
}

/// A rectangle within an image: top-left corner and size, in pixels.
#[derive(Clone, Copy, Debug, PartialEq, Eq, Structural)]
pub struct Area {
    pub x: u32,
    pub y: u32,
    pub width: u32,
    pub height: u32,
}

/// The dimensions of the image that a crop window is placed in.
#[derive(Clone, Copy, Debug, PartialEq, Eq, Structural)]
pub struct Geometry {
    pub width: u32,
    pub height: u32,
}

/// `v` as Rust's `u32 as i32` gives it.
pub open spec fn wrap_i32(v: u32) -> int {
    if v <= i32::MAX {
        v as int
    } else {
        v - 0x1_0000_0000
    }
}

/// `v` as Rust's `i32 as u32` gives it.
pub open spec fn wrap_u32(v: int) -> int {
    if v >= 0 {
        v
    } else {
        v + 0x1_0000_0000
    }
}

pub open spec fn in_i32(v: int) -> bool {
    i32::MIN <= v <= i32::MAX
}

pub open spec fn abs(v: int) -> int {
    if v < 0 {
        -v
    } else {
        v
    }
}

/// A percentage of `side` pixels, rounded and saturated to `i32`.
pub open spec fn percent_of(p: int, side: int) -> int {
    clamp_i32(round_div(p * side, 100_000_000)) as int
}

/// An offset in pixels.
pub open spec fn offset_px(off: Option<Coord>, side: int) -> Option<int> {
    match off {
        Some(Coord::Px(n)) => Some(n as int),
        Some(Coord::Percent(p)) => Some(percent_of(p.micros as int, side)),
        None => None,
    }
}

/// The length of the window along one axis, before clamping: the given size
/// (its magnitude), else what an offset leaves of the side, else the whole side.
pub open spec fn span(size: Option<Coord>, off: Option<int>, side: int) -> int {
    match size {
        Some(Coord::Px(n)) => abs(n as int),
        Some(Coord::Percent(p)) => percent_of(abs(p.micros as int), side),
        None => match off {
            Some(o) => if o >= 0 {
                side - o
            } else {
                side + o
            },
            None => side,
        },
    }
}

/// Where the window starts along one axis, before clamping: a non-negative
/// offset from the start, a negative offset from the end, or the anchor.
pub open spec fn raw_start(size: Option<Coord>, off: Option<int>, side: int, len: int, coef: int) -> int {
    match off {
        Some(o) => if o >= 0 {
            o
        } else if size is Some {
            side + o - len
        } else {
            0
        },
        None => clamp_i32(round_div((side - len) * coef, 1_000_000)) as int,
    }
}

/// Start and length of the window along one axis of `img` pixels.
pub open spec fn axis_window(img: u32, size: Option<Coord>, off: Option<Coord>, coef: int) -> (int, int) {
    let side = wrap_i32(img);
    let o = offset_px(off, side);
    let len = span(size, o, side);
    let max_start = if side - len > 0 {
        side - len
    } else {
        0
    };
    let raw = raw_start(size, o, side, len, coef);
    let start = if raw < 0 {
        0
    } else if raw > max_start {
        max_start
    } else {
        raw
    };
    let kept = if len < 0 {
        0
    } else {
        len
    };
    (start, wrap_u32(if kept < side {
        kept
    } else {
        side
    }))
}

/// The `i32` arithmetic of one axis stays in range (else it would overflow).
pub open spec fn axis_defined(img: u32, size: Option<Coord>, off: Option<Coord>) -> bool {
    let side = wrap_i32(img);
    let o = offset_px(off, side);
    let len = span(size, o, side);
    &&& size != Some(Coord::Px(i32::MIN))
    &&& (size is None && o is Some) ==> in_i32(len)
    &&& match o {
        Some(v) => (v < 0 && size is Some) ==> (in_i32(side + v) && in_i32(side + v - len)),
        None => true,
    }
    &&& in_i32(side - len)
}

/// The crop can be measured without overflow on both axes.
pub open spec fn area_defined(g: Geometry, opts: CropOptions) -> bool {
    axis_defined(g.width, opts.width, opts.offset_x) && axis_defined(
        g.height,
        opts.height,
        opts.offset_y,
    )
}

/// The crop window of `opts` in an image of `g`, anchored at `gravity`.
pub open spec fn spec_area(g: Geometry, opts: CropOptions, gravity: GravityOptions) -> Area {
    let (x, w) = axis_window(g.width, opts.width, opts.offset_x, abscissa_micros(gravity));
    let (y, h) = axis_window(g.height, opts.height, opts.offset_y, ordinate_micros(gravity));
    Area { x: x as u32, y: y as u32, width: w as u32, height: h as u32 }
}

/// A percentage of `side` pixels, rounded and saturated to `i32`.
fn percent_px(micros: i64, side: i64) -> (r: i64)
    requires
        i32::MIN <= side <= i32::MAX,
    ensures
        r == percent_of(micros as int, side as int),
        i32::MIN <= r <= i32::MAX,
{
    assert(-0x8000_0000_0000_0000_0000_0000 <= (micros as i128) * (side as i128)
        <= 0x8000_0000_0000_0000_0000_0000) by (nonlinear_arith)
        requires
            i64::MIN <= micros <= i64::MAX,
            i32::MIN <= side <= i32::MAX,
    ;
    let r = round_div_i128((micros as i128) * (side as i128), 100_000_000);
    if r < i32::MIN as i128 {
        i32::MIN as i64
    } else if r > i32::MAX as i128 {
        i32::MAX as i64
    } else {
        r as i64
    }
}

/// Start and length of the window along one axis.
fn axis(img: u32, size: Option<Coord>, off: Option<Coord>, coef: i64) -> (r: (u32, u32))
    requires
        0 <= coef <= 1_000_000,
        axis_defined(img, size, off),
    ensures
        r.0 == axis_window(img, size, off, coef as int).0,
        r.1 == axis_window(img, size, off, coef as int).1,
{
    let side: i64 = if img <= i32::MAX as u32 {
        img as i64
    } else {
        (img as i64) - 0x1_0000_0000
    };
    let o: Option<i64> = match off {
        Some(Coord::Px(n)) => Some(n as i64),
        Some(Coord::Percent(p)) => Some(percent_px(p.micros, side)),
        None => None,
    };
    let len: i64 = match size {
        Some(Coord::Px(n)) => {
            if n < 0 {
                -(n as i64)
            } else {
                n as i64
            }
        },
        Some(Coord::Percent(p)) => percent_px_abs(p.micros, side),
        None => match o {
            Some(v) => {
                if v >= 0 {
                    side - v
                } else {
                    side + v
                }
            },
            None => side,
        },
    };
    let max_start: i64 = if side - len > 0 {
        side - len
    } else {
        0
    };
    let raw: i64 = match o {
        Some(v) => {
            if v >= 0 {
                v
            } else if size.is_some() {
                side + v - len
            } else {
                0
            }
        },
        None => {
            assert(-0x4_0000_0000_0000_0000 <= ((side - len) as i128) * (coef as i128)
                <= 0x4_0000_0000_0000_0000) by (nonlinear_arith)
                requires
                    -0x4_0000_0000 <= side - len <= 0x4_0000_0000,
                    0 <= coef <= 1_000_000,
            ;
            let prod = ((side - len) as i128) * (coef as i128);
            let q = round_div_i128(prod, 1_000_000);
            if q < i32::MIN as i128 {
                i32::MIN as i64
            } else if q > i32::MAX as i128 {
                i32::MAX as i64
            } else {
                q as i64
            }
        },
    };
    let start: i64 = if raw < 0 {
        0
    } else if raw > max_start {
        max_start
    } else {
        raw
    };
    let kept: i64 = if len < 0 {
        0
    } else {
        len
    };
    let bounded: i64 = if kept < side {
        kept
    } else {
        side
    };
    let out: i64 = if bounded >= 0 {
        bounded
    } else {
        bounded + 0x1_0000_0000
    };
    (start as u32, out as u32)
}

/// `|micros|` percent of `side` pixels, rounded and saturated to `i32`.
fn percent_px_abs(micros: i64, side: i64) -> (r: i64)
    requires
        i32::MIN <= side <= i32::MAX,
    ensures
        r == percent_of(abs(micros as int), side as int),
        i32::MIN <= r <= i32::MAX,
{
    let m: i128 = if micros < 0 {
        0 - (micros as i128)
    } else {
        micros as i128
    };
    assert(-0x8000_0000_0000_0000_0000_0000 <= m * (side as i128) <= 0x8000_0000_0000_0000_0000_0000)
        by (nonlinear_arith)
        requires
            0 <= m <= 0x8000_0000_0000_0000,
            i32::MIN <= side <= i32::MAX,
    ;
    let r = round_div_i128(m * (side as i128), 100_000_000);
    if r < i32::MIN as i128 {
        i32::MIN as i64
    } else if r > i32::MAX as i128 {
        i32::MAX as i64
    } else {
        r as i64
    }
}

impl Geometry {
    /// The dimensions of an image of `width` by `height` pixels.
    pub fn new(width: u32, height: u32) -> (g: Geometry)
        ensures
            g.width == width,
            g.height == height,
    {
        Geometry { width, height }
    }

    /// Whether `area` can measure `opts` here: false exactly where the `i32`
    /// arithmetic of the measurement would overflow.
    pub fn area_is_defined(&self, opts: &CropOptions) -> (b: bool)
        ensures
            b == area_defined(*self, *opts),
    {
        axis_is_defined(self.width, opts.width, opts.offset_x) && axis_is_defined(
            self.height,
            opts.height,
            opts.offset_y,
        )
    }

    /// The crop window of `opts`, anchored at `gravity` along any axis without offset.
    ///
    /// Along each axis: the length is the given size (its magnitude), else what
    /// the offset leaves of the side, else the whole side; a non-negative offset
    /// is counted from the start, a negative one from the end; without offset the
    /// free space is split by the gravity. The start is then kept within
    /// `0 ..= side - length` and the length within `0 ..= side`.
    pub fn area(&self, opts: &CropOptions, gravity: &GravityOptions) -> (a: Area)
        requires
            area_defined(*self, *opts),
        ensures
            a == spec_area(*self, *opts, *gravity),
    {
        let (gx, gy) = gravity.as_coef();
        let (x, w) = axis(self.width, opts.width, opts.offset_x, gx.micros);
        let (y, h) = axis(self.height, opts.height, opts.offset_y, gy.micros);
        Area { x, y, width: w, height: h }
    }
}

/// The crop window never exceeds the image: its width and height are at most
/// the image's, and a non-empty window ends within the image.
pub proof fn lemma_area_within_image(g: Geometry, opts: CropOptions, gravity: GravityOptions)
    requires
        g.width <= i32::MAX,
        g.height <= i32::MAX,
        area_defined(g, opts),
    ensures
        ({
            let a = spec_area(g, opts, gravity);
            &&& a.width <= g.width
            &&& a.height <= g.height
            &&& a.width > 0 ==> a.x + a.width <= g.width
            &&& a.height > 0 ==> a.y + a.height <= g.height
        }),
{
}

/// Without size or offset the crop window is the whole image, whatever the gravity.
pub proof fn lemma_no_crop_is_whole_image(g: Geometry, gravity: GravityOptions)
    requires
        g.width <= i32::MAX,
        g.height <= i32::MAX,
    ensures
        ({
            let opts = CropOptions { width: None, height: None, offset_x: None, offset_y: None };
            &&& area_defined(g, opts)
            &&& spec_area(g, opts, gravity) == Area { x: 0, y: 0, width: g.width, height: g.height }
        }),
{
}

/// A window of `w` pixels fitting in the width, without horizontal offset, is
/// anchored by the gravity: flush left, flush right, or centred (half of the
/// free space, rounded up).
pub proof fn lemma_gravity_anchors_window(
    g: Geometry,
    w: i32,
    height: Option<Coord>,
    offset_y: Option<Coord>,
    gravity: GravityOptions,
)
    requires
        g.width <= i32::MAX,
        0 <= w <= g.width,
        axis_defined(g.height, height, offset_y),
    ensures
        ({
            let opts = CropOptions {
                width: Some(Coord::Px(w)),
                height: height,
                offset_x: None,
                offset_y: offset_y,
            };
            let a = spec_area(g, opts, gravity);
            &&& area_defined(g, opts)
            &&& a.width == w
            &&& abscissa_micros(gravity) == 0 ==> a.x == 0
            &&& abscissa_micros(gravity) == 1_000_000 ==> a.x + a.width == g.width
            &&& abscissa_micros(gravity) == 500_000 ==> a.x == (g.width - w + 1) / 2
        }),
{
    let free = g.width - w;
    assert(round_div(free * 1_000_000, 1_000_000) == free) by (nonlinear_arith)
        requires
            free >= 0,
    ;
    assert(round_div(free * 500_000, 1_000_000) == (free + 1) / 2) by (nonlinear_arith)
        requires
            free >= 0,
    ;
    assert(round_div(free * 0, 1_000_000) == 0) by (nonlinear_arith)
        requires
            free >= 0,
    ;
}

/// Tests `axis_defined`.
fn axis_is_defined(img: u32, size: Option<Coord>, off: Option<Coord>) -> (b: bool)
    ensures
        b == axis_defined(img, size, off),
{
    let side: i64 = if img <= i32::MAX as u32 {
        img as i64
    } else {
        (img as i64) - 0x1_0000_0000
    };
    if let Some(Coord::Px(n)) = size {
        if n == i32::MIN {
            return false;
        }
    }
    let o: Option<i64> = match off {
        Some(Coord::Px(n)) => Some(n as i64),
        Some(Coord::Percent(p)) => Some(percent_px(p.micros, side)),
        None => None,
    };
    let len: i64 = match size {
        Some(Coord::Px(n)) => {
            if n < 0 {
                -(n as i64)
            } else {
                n as i64
            }
        },
        Some(Coord::Percent(p)) => percent_px_abs(p.micros, side),
        None => match o {
            Some(v) => {
                if v >= 0 {
                    side - v
                } else {
                    side + v
                }
            },
            None => side,
        },
    };
    let fits = |v: i64| -> (b: bool)
        ensures
            b == in_i32(v as int),
        { i32::MIN as i64 <= v && v <= i32::MAX as i64 };
    if size.is_none() && o.is_some() && !fits(len) {
        return false;
    }
    if let Some(v) = o {
        if v < 0 && size.is_some() && (!fits(side + v) || !fits(side + v - len)) {
            return false;
        }
    }
    fits(side - len)
}

/// With both offsets given the gravity plays no part: the window is the same
/// for every gravity.
pub proof fn lemma_offsets_override_gravity(
    g: Geometry,
    opts: CropOptions,
    g1: GravityOptions,
    g2: GravityOptions,
)
    requires
        opts.offset_x is Some,
        opts.offset_y is Some,
    ensures
        spec_area(g, opts, g1) == spec_area(g, opts, g2),
{
}

/// A window of `h` pixels fitting in the height, without vertical offset, is
/// placed by the gravity alone, whatever the width and the horizontal offset:
/// at the top for the top gravities, at the bottom for the bottom ones, and
/// centred (half of the free space, rounded up) for the middle ones.
pub proof fn lemma_gravity_places_window_vertically(
    g: Geometry,
    h: i32,
    width: Option<Coord>,
    offset_x: Option<Coord>,
    gravity: GravityOptions,
)
    requires
        g.height <= i32::MAX,
        0 <= h <= g.height,
        axis_defined(g.width, width, offset_x),
    ensures
        ({
            let opts = CropOptions {
                width: width,
                height: Some(Coord::Px(h)),
                offset_x: offset_x,
                offset_y: None,
            };
            let a = spec_area(g, opts, gravity);
            &&& area_defined(g, opts)
            &&& a.height == h
            &&& (gravity == GravityOptions::Top || gravity == GravityOptions::TopLeft || gravity
                == GravityOptions::TopRight) ==> a.y == 0
            &&& (gravity == GravityOptions::Bottom || gravity == GravityOptions::BottomLeft
                || gravity == GravityOptions::BottomRight) ==> a.y + a.height == g.height
            &&& (gravity == GravityOptions::Center || gravity == GravityOptions::CenterLeft
                || gravity == GravityOptions::CenterRight) ==> a.y == (g.height - h + 1) / 2
        }),
{
    let free = g.height - h;
    assert(round_div(free * 1_000_000, 1_000_000) == free) by (nonlinear_arith)
        requires
            free >= 0,
    ;
    assert(round_div(free * 500_000, 1_000_000) == (free + 1) / 2) by (nonlinear_arith)
        requires
            free >= 0,
    ;
    assert(round_div(free * 0, 1_000_000) == 0) by (nonlinear_arith)
        requires
            free >= 0,
    ;
}

} // verus!
