//! The processing options: which operations the pipeline applies, and with
//! which parameters, and the checks that refuse meaningless values.
use vstd::prelude::*;
use crate::color::BackgroundOptions;
use crate::crop::CropOptions;
use crate::decimal::{Decimal, clamp_u8, clamp_u32, round_div, round_div_i128, trunc_div};
use crate::format::ImageFormat;
use crate::gravity::GravityOptions;

verus! {

// ---------------------------------------------------------------- quality

/// Output quality, from 0 to 100.
#[derive(Clone, Copy, Debug, PartialEq, Eq, Structural)]
pub struct QualityOptions {
    pub quality: Option<Decimal>,
}

/// A quality above 100.
#[derive(Clone, Copy, Debug, PartialEq, Eq, Structural)]
pub enum QualityError {
    OutOfRange,
}

impl QualityError {
    /// The error message.
    pub fn to_string(&self) -> (r: String)
        ensures
            r@ == "Quality must be between 0 and 100"@,
    {
        String::from_str("Quality must be between 0 and 100")
    }
}

/// A quality is refused only above 100.
pub open spec fn quality_valid(q: Option<Decimal>) -> bool {
    match q {
        Some(v) => v.micros <= 100_000_000,
        None => true,
    }
}

impl Default for QualityOptions {
    fn default() -> (o: QualityOptions)
        ensures
            o.quality == Some(Decimal { micros: 75_000_000 }),
    {
        QualityOptions { quality: Some(Decimal::from_micros(75_000_000)) }
    }
}

impl QualityOptions {
    /// Options with the given quality, refused above 100.
    pub fn new(quality: Option<Decimal>) -> (r: Result<QualityOptions, QualityError>)
        ensures
            r == (if quality_valid(quality) {
                Ok(QualityOptions { quality })
            } else {
                Err(QualityError::OutOfRange)
            }),
    {
        let opts = QualityOptions { quality };
        match opts.validate() {
            Ok(()) => Ok(opts),
            Err(e) => Err(e),
        }
    }

    /// A quality is given.
    pub fn is_enabled(&self) -> (b: bool)
        ensures
            b == self.quality is Some,
    {
        self.quality.is_some()
    }

    /// Refuses a quality above 100.
    pub fn validate(&self) -> (r: Result<(), QualityError>)
        ensures
            r == (if quality_valid(self.quality) {
                Ok(())
            } else {
                Err(QualityError::OutOfRange)
            }),
    {
        if let Some(q) = self.quality {
            if q.micros > 100_000_000 {
                return Err(QualityError::OutOfRange);
            }
        }
        Ok(())
    }

    /// The quality as a byte: truncated toward zero and saturated.
    pub fn to_u8(&self) -> (r: Option<u8>)
        ensures
            r == (match self.quality {
                Some(q) => Some(clamp_u8(trunc_div(q.micros as int, 1_000_000))),
                None => None,
            }),
    {
        match self.quality {
            Some(q) => Some(q.to_u8_saturating()),
            None => None,
        }
    }
}

// ---------------------------------------------------------------- resize

/// How a resize treats the aspect ratio.
#[derive(Clone, Copy, Debug, PartialEq, Eq, Structural)]
pub enum AspectRatioStrategy {
    /// Proportional scaling within the target size.
    Fit,
    /// Fill the target size, cropping what exceeds it.
    Cover,
    /// Fit inside the target size, padding the rest.
    Contain,
    /// Exactly the target size, ignoring the aspect ratio.
    Stretch,
}

/// The sampling filter of a resize (`image::imageops::FilterType`).
#[derive(Clone, Copy, Debug, PartialEq, Eq, Structural)]
pub enum ResizeFilter {
    Nearest,
    Triangle,
    CatmullRom,
    Gaussian,
    Lanczos3,
}

/// Target size, device pixel ratio and strategy of a resize.
#[derive(Clone, Copy, Debug, PartialEq, Eq, Structural)]
pub struct ResizeOptions {
    pub width: Option<u32>,
    pub height: Option<u32>,
    pub dpr: Decimal,
    pub strategy: AspectRatioStrategy,
    pub filter: ResizeFilter,
}

/// Why resize options are refused.
#[derive(Clone, Copy, Debug, PartialEq, Eq, Structural)]
pub enum ResizeError {
    ZeroWidth,
    ZeroHeight,
    DprOutOfRange,
    /// The strategy needs both a width and a height.
    MissingDimension(AspectRatioStrategy),
}

/// The name of a strategy as `Debug` prints it.
pub open spec fn strategy_name(s: AspectRatioStrategy) -> Seq<char> {
    match s {
        AspectRatioStrategy::Fit => "Fit"@,
        AspectRatioStrategy::Cover => "Cover"@,
        AspectRatioStrategy::Contain => "Contain"@,
        AspectRatioStrategy::Stretch => "Stretch"@,
    }
}

impl ResizeError {
    /// The error message.
    pub fn to_string(&self) -> (r: String)
        ensures
            r@ == (match *self {
                ResizeError::ZeroWidth => "Resize width must be greater than 0"@,
                ResizeError::ZeroHeight => "Resize height must be greater than 0"@,
                ResizeError::DprOutOfRange => "Resize dpr must be between 0.1 and 10.0 (default is 1.0)"@,
                ResizeError::MissingDimension(s) => strategy_name(s)
                    + " strategy requires both width and height to be set"@,
            }),
    {
        match self {
            ResizeError::ZeroWidth => String::from_str("Resize width must be greater than 0"),
            ResizeError::ZeroHeight => String::from_str("Resize height must be greater than 0"),
            ResizeError::DprOutOfRange => String::from_str(
                "Resize dpr must be between 0.1 and 10.0 (default is 1.0)",
            ),
            ResizeError::MissingDimension(s) => {
                let name = match s {
                    AspectRatioStrategy::Fit => "Fit",
                    AspectRatioStrategy::Cover => "Cover",
                    AspectRatioStrategy::Contain => "Contain",
                    AspectRatioStrategy::Stretch => "Stretch",
                };
                String::from_str(name).concat(" strategy requires both width and height to be set")
            },
        }
    }
}

/// A size is given, or the device pixel ratio is not 1.
pub open spec fn resize_enabled(o: ResizeOptions) -> bool {
    o.width is Some || o.height is Some || o.dpr.micros != 1_000_000
}

/// What `validate` returns: sizes must be positive, the ratio within 0.1 ..= 10,
/// and every enabled strategy but `Fit` needs both sizes.
pub open spec fn resize_validation(o: ResizeOptions) -> Result<(), ResizeError> {
    if o.width == Some(0u32) {
        Err(ResizeError::ZeroWidth)
    } else if o.height == Some(0u32) {
        Err(ResizeError::ZeroHeight)
    } else if !(100_000 <= o.dpr.micros <= 10_000_000) {
        Err(ResizeError::DprOutOfRange)
    } else if !resize_enabled(o) || o.strategy == AspectRatioStrategy::Fit {
        Ok(())
    } else if o.width is None || o.height is None {
        Err(ResizeError::MissingDimension(o.strategy))
    } else {
        Ok(())
    }
}

/// One side of the target: the given size (else the image's) times the ratio,
/// rounded and saturated to `u32`.
pub open spec fn scaled_side(size: Option<u32>, image_side: u32, dpr: Decimal) -> u32 {
    let side = match size {
        Some(s) => s,
        None => image_side,
    };
    clamp_u32(round_div(side * dpr.micros, 1_000_000))
}

impl Default for ResizeOptions {
    fn default() -> (o: ResizeOptions)
        ensures
            o == (ResizeOptions {
                width: None,
                height: None,
                dpr: Decimal { micros: 1_000_000 },
                strategy: AspectRatioStrategy::Fit,
                filter: ResizeFilter::Triangle,
            }),
    {
        ResizeOptions {
            width: None,
            height: None,
            dpr: Decimal::from_micros(1_000_000),
            strategy: AspectRatioStrategy::Fit,
            filter: ResizeFilter::Triangle,
        }
    }
}

impl ResizeOptions {
    /// The default options with the given sizes.
    pub fn new(width: Option<u32>, height: Option<u32>) -> (o: ResizeOptions)
        ensures
            o == (ResizeOptions {
                width,
                height,
                dpr: Decimal { micros: 1_000_000 },
                strategy: AspectRatioStrategy::Fit,
                filter: ResizeFilter::Triangle,
            }),
    {
        ResizeOptions { width, height, ..Self::default() }
    }

    /// The same options with another device pixel ratio.
    pub fn dpr(self, dpr: Decimal) -> (o: ResizeOptions)
        ensures
            o == (ResizeOptions { dpr, ..self }),
    {
        ResizeOptions { dpr, ..self }
    }

    /// The same options with another strategy.
    pub fn strategy(self, strategy: AspectRatioStrategy) -> (o: ResizeOptions)
        ensures
            o == (ResizeOptions { strategy, ..self }),
    {
        ResizeOptions { strategy, ..self }
    }

    /// A size is given, or the device pixel ratio is not 1.
    pub fn is_enabled(&self) -> (b: bool)
        ensures
            b == resize_enabled(*self),
    {
        let is_size_modified = self.width.is_some() || self.height.is_some();
        let is_dpr_modified = self.dpr.micros != 1_000_000;
        is_size_modified || is_dpr_modified
    }

    /// Refuses a zero size, a ratio outside 0.1 ..= 10, and a missing size for
    /// the strategies that need both.
    pub fn validate(&self) -> (r: Result<(), ResizeError>)
        ensures
            r == resize_validation(*self),
    {
        if let Some(width) = self.width {
            if width == 0 {
                return Err(ResizeError::ZeroWidth);
            }
        }
        if let Some(height) = self.height {
            if height == 0 {
                return Err(ResizeError::ZeroHeight);
            }
        }
        let dpr = self.dpr.micros;
        if !(100_000 <= dpr && dpr <= 10_000_000) {
            return Err(ResizeError::DprOutOfRange);
        }
        if !self.is_enabled() {
            return Ok(());
        }
        match self.strategy {
            AspectRatioStrategy::Fit => {
                return Ok(());
            },
            _ => {
                if self.width.is_none() || self.height.is_none() {
                    return Err(ResizeError::MissingDimension(self.strategy));
                }
            },
        }
        Ok(())
    }

    /// The size to resize an image of `image_width` by `image_height` to: each
    /// given size (else the image's) times the device pixel ratio, rounded.
    pub fn target_size(&self, image_width: u32, image_height: u32) -> (r: (u32, u32))
        ensures
            r.0 == scaled_side(self.width, image_width, self.dpr),
            r.1 == scaled_side(self.height, image_height, self.dpr),
    {
        let w = match self.width {
            Some(v) => v,
            None => image_width,
        };
        let h = match self.height {
            Some(v) => v,
            None => image_height,
        };
        (scale_side(w, self.dpr), scale_side(h, self.dpr))
    }
}

/// `side * dpr`, rounded and saturated to `u32`.
fn scale_side(side: u32, dpr: Decimal) -> (r: u32)
    ensures
        r == clamp_u32(round_div(side * dpr.micros, 1_000_000)),
{
    assert(-0x1_0000_0000_0000_0000_0000_0000 <= (side as i128) * (dpr.micros as i128)
        <= 0x1_0000_0000_0000_0000_0000_0000) by (nonlinear_arith)
        requires
            side <= u32::MAX,
            i64::MIN <= dpr.micros <= i64::MAX,
    ;
    let v = round_div_i128((side as i128) * (dpr.micros as i128), 1_000_000);
    if v < 0 {
        0
    } else if v > u32::MAX as i128 {
        u32::MAX
    } else {
        v as u32
    }
}

/// With a device pixel ratio of 1 the target side is the given size, else the
/// image's own side: the ratio alone changes nothing.
pub proof fn lemma_unit_ratio_keeps_side(size: Option<u32>, image_side: u32)
    ensures
        scaled_side(size, image_side, Decimal { micros: 1_000_000 }) == (match size {
            Some(s) => s,
            None => image_side,
        }),
{
    let side: int = match size {
        Some(s) => s as int,
        None => image_side as int,
    };
    assert((2 * (side * 1_000_000int) + 1_000_000int) / 2_000_000int == side) by (nonlinear_arith)
        requires
            side >= 0,
    ;
}

/// Where a scaled image is placed along one side of a padded (`Contain`)
/// target: half of the free space, rounded down, or 0 when none is free.
pub fn contain_offset(target: u32, scaled: u32) -> (r: u32)
    ensures
        r == (if target >= scaled {
            (target - scaled) / 2
        } else {
            0
        }),
{
    target.saturating_sub(scaled) / 2
}

// ---------------------------------------------------------------- blur, rotate, mirror

/// Gaussian blur with the given standard deviation, in pixels.
#[derive(Clone, Copy, Debug, PartialEq, Eq, Structural)]
pub struct BlurOptions {
    pub blur: Option<Decimal>,
}

/// A blur that is not positive.
#[derive(Clone, Copy, Debug, PartialEq, Eq, Structural)]
pub enum BlurError {
    NotPositive,
}

impl BlurError {
    /// The error message.
    pub fn to_string(&self) -> (r: String)
        ensures
            r@ == "Blur value must be greater than 0.0"@,
    {
        String::from_str("Blur value must be greater than 0.0")
    }
}

impl BlurOptions {
    /// A blur is given.
    pub fn is_enabled(&self) -> (b: bool)
        ensures
            b == self.blur is Some,
    {
        self.blur.is_some()
    }

    /// Refuses a blur of zero or less.
    pub fn validate(&self) -> (r: Result<(), BlurError>)
        ensures
            r == (match self.blur {
                Some(b) => if b.micros <= 0 {
                    Err(BlurError::NotPositive)
                } else {
                    Ok(())
                },
                None => Ok(()),
            }),
    {
        if let Some(blur) = self.blur {
            if blur.micros <= 0 {
                return Err(BlurError::NotPositive);
            }
        }
        Ok(())
    }
}

/// Rotation about the centre, in degrees.
#[derive(Clone, Copy, Debug, PartialEq, Eq, Structural)]
pub struct RotateOptions {
    pub angle_degrees: Option<Decimal>,
}

/// A rotation by (nearly) zero degrees.
#[derive(Clone, Copy, Debug, PartialEq, Eq, Structural)]
pub enum RotateError {
    Zero,
}

impl RotateError {
    /// The error message.
    pub fn to_string(&self) -> (r: String)
        ensures
            r@ == "Rotate must be greater than 0.0"@,
    {
        String::from_str("Rotate must be greater than 0.0")
    }
}

impl RotateOptions {
    /// An angle is given.
    pub fn is_enabled(&self) -> (b: bool)
        ensures
            b == self.angle_degrees is Some,
    {
        self.angle_degrees.is_some()
    }

    /// Refuses an angle whose magnitude is below a millionth of a degree.
    pub fn validate(&self) -> (r: Result<(), RotateError>)
        ensures
            r == (match self.angle_degrees {
                Some(a) => if a.micros == 0 {
                    Err(RotateError::Zero)
                } else {
                    Ok(())
                },
                None => Ok(()),
            }),
    {
        if let Some(degrees) = self.angle_degrees {
            if degrees.micros == 0 {
                return Err(RotateError::Zero);
            }
        }
        Ok(())
    }
}

/// Horizontal (`flip`) and vertical (`flop`) mirroring.
#[derive(Clone, Copy, Debug, PartialEq, Eq, Structural)]
pub struct MirrorOptions {
    pub flip: bool,
    pub flop: bool,
}

impl Default for MirrorOptions {
    fn default() -> (o: MirrorOptions)
        ensures
            !o.flip && !o.flop,
    {
        MirrorOptions { flip: false, flop: false }
    }
}

impl MirrorOptions {
    /// Some mirroring is asked for.
    pub fn is_enabled(&self) -> (b: bool)
        ensures
            b == (self.flip || self.flop),
    {
        self.flip || self.flop
    }
}

// ---------------------------------------------------------------- colour adjustments

/// Unsharp masking: blur sigma and threshold.
#[derive(Clone, Copy, Debug, PartialEq, Eq, Structural)]
pub struct Sharpen {
    pub sigma: Decimal,
    pub threshold: i32,
}

/// Colour adjustments, with sharpening.
#[derive(Clone, Copy, Debug, PartialEq, Eq, Structural)]
pub struct ImageAdjustmentsOptions {
    pub grayscale: bool,
    pub brightness: Option<i32>,
    pub contrast: Option<Decimal>,
    pub gamma: Option<Decimal>,
    pub invert: bool,
    pub sharpen: Option<Sharpen>,
}

impl Default for ImageAdjustmentsOptions {
    fn default() -> (o: ImageAdjustmentsOptions)
        ensures
            o == (ImageAdjustmentsOptions {
                grayscale: false,
                brightness: None,
                contrast: None,
                gamma: None,
                invert: false,
                sharpen: None,
            }),
    {
        ImageAdjustmentsOptions {
            grayscale: false,
            brightness: None,
            contrast: None,
            gamma: None,
            invert: false,
            sharpen: None,
        }
    }
}

impl ImageAdjustmentsOptions {
    /// Some adjustment is asked for.
    pub fn is_enabled(&self) -> (b: bool)
        ensures
            b == (self.grayscale || self.brightness is Some || self.contrast is Some
                || self.gamma is Some || self.invert || self.sharpen is Some),
    {
        self.grayscale || self.brightness.is_some() || self.contrast.is_some()
            || self.gamma.is_some() || self.invert || self.sharpen.is_some()
    }
}

/// Colour adjustments without sharpening.
#[derive(Clone, Copy, Debug, PartialEq, Eq, Structural)]
pub struct ColorsOptions {
    pub grayscale: bool,
    pub brightness: Option<i32>,
    pub contrast: Option<Decimal>,
    pub gamma: Option<Decimal>,
    pub invert: bool,
}

impl ColorsOptions {
    /// Some adjustment is asked for.
    pub fn is_enabled(&self) -> (b: bool)
        ensures
            b == (self.grayscale || self.brightness is Some || self.contrast is Some
                || self.gamma is Some || self.invert),
    {
        self.grayscale || self.brightness.is_some() || self.contrast.is_some()
            || self.gamma.is_some() || self.invert
    }
}

// ---------------------------------------------------------------- format

/// The requested output format, if any.
#[derive(Clone, Copy, Debug, PartialEq, Eq, Structural)]
pub struct FormatOptions {
    pub format: Option<ImageFormat>,
}

/// A format that the pipeline cannot write.
#[derive(Clone, Copy, Debug, PartialEq, Eq, Structural)]
pub enum FormatError {
    Unsupported(ImageFormat),
}

/// The output formats: WebP, AVIF, JPEG, PNG and GIF.
pub open spec fn supported_output(f: ImageFormat) -> bool {
    f == ImageFormat::WebP || f == ImageFormat::Avif || f == ImageFormat::Jpeg || f
        == ImageFormat::Png || f == ImageFormat::Gif
}

/// The name of a format as `Debug` prints it.
pub open spec fn format_name(f: ImageFormat) -> Seq<char> {
    match f {
        ImageFormat::Png => "Png"@,
        ImageFormat::Jpeg => "Jpeg"@,
        ImageFormat::Gif => "Gif"@,
        ImageFormat::WebP => "WebP"@,
        ImageFormat::Pnm => "Pnm"@,
        ImageFormat::Tiff => "Tiff"@,
        ImageFormat::Tga => "Tga"@,
        ImageFormat::Dds => "Dds"@,
        ImageFormat::Bmp => "Bmp"@,
        ImageFormat::Ico => "Ico"@,
        ImageFormat::Hdr => "Hdr"@,
        ImageFormat::OpenExr => "OpenExr"@,
        ImageFormat::Farbfeld => "Farbfeld"@,
        ImageFormat::Avif => "Avif"@,
        ImageFormat::Qoi => "Qoi"@,
        ImageFormat::Pcx => "Pcx"@,
    }
}

/// The name of a format as `Debug` prints it.
pub fn format_debug_name(f: ImageFormat) -> (r: &'static str)
    ensures
        r@ == format_name(f),
{
    match f {
        ImageFormat::Png => "Png",
        ImageFormat::Jpeg => "Jpeg",
        ImageFormat::Gif => "Gif",
        ImageFormat::WebP => "WebP",
        ImageFormat::Pnm => "Pnm",
        ImageFormat::Tiff => "Tiff",
        ImageFormat::Tga => "Tga",
        ImageFormat::Dds => "Dds",
        ImageFormat::Bmp => "Bmp",
        ImageFormat::Ico => "Ico",
        ImageFormat::Hdr => "Hdr",
        ImageFormat::OpenExr => "OpenExr",
        ImageFormat::Farbfeld => "Farbfeld",
        ImageFormat::Avif => "Avif",
        ImageFormat::Qoi => "Qoi",
        ImageFormat::Pcx => "Pcx",
    }
}

/// The message of a format error.
pub open spec fn format_error_message(e: FormatError) -> Seq<char> {
    match e {
        FormatError::Unsupported(f) => "Unsupported output format "@ + format_name(f)
            + ". Supported formats: [WebP, Avif, Jpeg, Png, Gif]"@,
    }
}

impl FormatError {
    /// The error message.
    pub fn to_string(&self) -> (r: String)
        ensures
            r@ == format_error_message(*self),
    {
        match self {
            FormatError::Unsupported(f) => String::from_str("Unsupported output format ").concat(
                format_debug_name(*f),
            ).concat(". Supported formats: [WebP, Avif, Jpeg, Png, Gif]"),
        }
    }
}

impl Default for FormatOptions {
    fn default() -> (o: FormatOptions)
        ensures
            o.format is None,
    {
        FormatOptions { format: None }
    }
}

impl FormatOptions {
    /// Options for the given format, refused when the pipeline cannot write it.
    pub fn new(format: Option<ImageFormat>) -> (r: Result<FormatOptions, FormatError>)
        ensures
            r == (match format {
                Some(f) => if supported_output(f) {
                    Ok(FormatOptions { format })
                } else {
                    Err(FormatError::Unsupported(f))
                },
                None => Ok(FormatOptions { format }),
            }),
    {
        let opts = FormatOptions { format };
        match opts.validate() {
            Ok(()) => Ok(opts),
            Err(e) => Err(e),
        }
    }

    /// A format is given.
    pub fn is_enabled(&self) -> (b: bool)
        ensures
            b == self.format is Some,
    {
        self.format.is_some()
    }

    /// Refuses a format that the pipeline cannot write; no format is valid.
    pub fn validate(&self) -> (r: Result<(), FormatError>)
        ensures
            r == (match self.format {
                Some(f) => if supported_output(f) {
                    Ok(())
                } else {
                    Err(FormatError::Unsupported(f))
                },
                None => Ok(()),
            }),
    {
        if let Some(format) = self.format {
            let supported = Self::supported_formats();
            let mut i: usize = 0;
            while i < supported.len()
                invariant
                    i <= supported@.len(),
                    self.format == Some(format),
                    supported@ == seq![
                        ImageFormat::WebP,
                        ImageFormat::Avif,
                        ImageFormat::Jpeg,
                        ImageFormat::Png,
                        ImageFormat::Gif,
                    ],
                    forall|j: int| 0 <= j < i ==> supported@[j] != format,
                decreases supported@.len() - i,
            {
                if supported[i] == format {
                    return Ok(());
                }
                i = i + 1;
            }
            return Err(FormatError::Unsupported(format));
        }
        Ok(())
    }

    /// The formats that the pipeline can write.
    fn supported_formats() -> (v: Vec<ImageFormat>)
        ensures
            v@ == seq![
                ImageFormat::WebP,
                ImageFormat::Avif,
                ImageFormat::Jpeg,
                ImageFormat::Png,
                ImageFormat::Gif,
            ],
    {
        let v = vec![
            ImageFormat::WebP,
            ImageFormat::Avif,
            ImageFormat::Jpeg,
            ImageFormat::Png,
            ImageFormat::Gif,
        ];
        assert(v@ =~= seq![
            ImageFormat::WebP,
            ImageFormat::Avif,
            ImageFormat::Jpeg,
            ImageFormat::Png,
            ImageFormat::Gif,
        ]);
        v
    }

    /// The requested format.
    pub fn get_format(&self) -> (f: Option<ImageFormat>)
        ensures
            f == self.format,
    {
        self.format
    }
}

// ---------------------------------------------------------------- all options

/// Everything the pipeline is asked to do.
#[derive(Clone, Copy, Debug, PartialEq, Eq, Structural)]
pub struct ProcessingOptions {
    pub format: Option<FormatOptions>,
    pub quality: Option<QualityOptions>,
    pub resize: Option<ResizeOptions>,
    pub auto_select_format: bool,
    pub crop: Option<CropOptions>,
    pub gravity: Option<GravityOptions>,
    pub mirror: Option<MirrorOptions>,
    pub rotate: Option<RotateOptions>,
    pub blur: Option<BlurOptions>,
    pub background: Option<BackgroundOptions>,
    pub image_adjustments: Option<ImageAdjustmentsOptions>,
}

impl Default for ProcessingOptions {
    fn default() -> (o: ProcessingOptions)
        ensures
            o == (ProcessingOptions {
                format: None,
                quality: None,
                resize: None,
                auto_select_format: false,
                crop: None,
                gravity: None,
                mirror: None,
                rotate: None,
                blur: None,
                background: None,
                image_adjustments: None,
            }),
    {
        ProcessingOptions {
            format: None,
            quality: None,
            resize: None,
            auto_select_format: false,
            crop: None,
            gravity: None,
            mirror: None,
            rotate: None,
            blur: None,
            background: None,
            image_adjustments: None,
        }
    }
}

/// The quality of the options, if one is set.
pub open spec fn option_quality(o: ProcessingOptions) -> Option<Decimal> {
    match o.quality {
        Some(q) => q.quality,
        None => None,
    }
}

/// The output format of the options, if one is set.
pub open spec fn option_format(o: ProcessingOptions) -> Option<ImageFormat> {
    match o.format {
        Some(f) => f.format,
        None => None,
    }
}

impl ProcessingOptions {
    /// The requested quality, if any.
    pub fn get_quality(&self) -> (q: Option<Decimal>)
        ensures
            q == option_quality(*self),
    {
        match &self.quality {
            Some(q) => q.quality,
            None => None,
        }
    }

    /// The requested output format, if any.
    pub fn get_format(&self) -> (f: Option<ImageFormat>)
        ensures
            f == option_format(*self),
    {
        match &self.format {
            Some(f) => f.get_format(),
            None => None,
        }
    }
}

} // verus!
