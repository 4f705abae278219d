//! The decisions of the processing pipeline: which encoder writes the output,
//! whether an operation applies and with which parameters, and what fails.
use vstd::prelude::*;
use crate::crop::{Area, Geometry, area_defined, spec_area};
use crate::decimal::{clamp_u32, round_div, round_div_i128};
use crate::auto_format::{auto_formats, spec_candidates};
use crate::encoders::{
    CodecResolver,
    default_registry,
    EncoderKind,
    encoder_format,
    keeps_transparency,
    native_quality,
};
use crate::format::{ImageFormat, format_mime_type, infer_format_from_path, inferred_format};
use crate::gravity::{GravityOptions, abscissa_micros, ordinate_micros};
use crate::color::{Rgba, white};
use crate::decimal::Decimal;
use crate::options::{
    AspectRatioStrategy, ImageAdjustmentsOptions, MirrorOptions, ProcessingOptions, ResizeFilter,
    option_format, resize_enabled, scaled_side, supported_output,
};

verus! {

/// The operation of the pipeline that found no image.
#[derive(Clone, Copy, Debug, PartialEq, Eq, Structural)]
pub enum Stage {
    Blur,
    Crop,
    Mirror,
    Resize,
    Rotate,
    ImageAdjustments,
}

/// Why the pipeline stops.
#[derive(Clone, Copy, Debug, PartialEq, Eq, Structural)]
pub enum PipelineError {
    /// The output path's extension names another format than the options.
    FormatMismatch,
    /// No encoder is registered for the format.
    NoEncoder(ImageFormat),
    /// No image has been loaded.
    ImageNotLoaded,
    /// An operation found no image.
    ImageCannotBeLoaded(Stage),
    /// The JPEG round trip of a quality reduction has no encoder.
    NoJpegEncoder,
    /// Gravity coordinates were asked for without an image.
    NoImage,
    /// Gravity coordinates were asked for without a gravity.
    NoGravity,
}

/// The tag that begins the message of a stage that found no image.
pub open spec fn stage_tag(stage: Stage) -> Seq<char> {
    match stage {
        Stage::Blur => "[core/Blur]"@,
        Stage::Crop => "[core/crop]"@,
        Stage::Mirror => "[core/mirror]"@,
        Stage::Resize => "[core/resize]"@,
        Stage::Rotate => "[core/rotate]"@,
        Stage::ImageAdjustments => "[core/image_adjustments]"@,
    }
}

impl PipelineError {
    /// The error message.
    pub fn to_string(&self) -> (r: String)
        ensures
            r@ == (match *self {
                PipelineError::FormatMismatch => "[core/pipeline] Output format does not match the specified format"@,
                PipelineError::NoEncoder(f) => "[core/pipeline] No encoder registered for format: "@
                    + format_mime_type(f),
                PipelineError::ImageNotLoaded => "[core/pipeline] Image not loaded"@,
                PipelineError::ImageCannotBeLoaded(stage) => stage_tag(stage) + " Image cannot be loaded"@,
                PipelineError::NoJpegEncoder => "[core/quality] No JPEG encoder available for quality optimization"@,
                PipelineError::NoImage => "No image loaded"@,
                PipelineError::NoGravity => "No gravity option set"@,
            }),
    {
        match self {
            PipelineError::FormatMismatch => String::from_str(
                "[core/pipeline] Output format does not match the specified format",
            ),
            PipelineError::NoEncoder(f) => String::from_str(
                "[core/pipeline] No encoder registered for format: ",
            ).concat(f.to_mime_type()),
            PipelineError::ImageNotLoaded => String::from_str("[core/pipeline] Image not loaded"),
            PipelineError::ImageCannotBeLoaded(stage) => {
                let name = match stage {
                    Stage::Blur => "[core/Blur]",
                    Stage::Crop => "[core/crop]",
                    Stage::Mirror => "[core/mirror]",
                    Stage::Resize => "[core/resize]",
                    Stage::Rotate => "[core/rotate]",
                    Stage::ImageAdjustments => "[core/image_adjustments]",
                };
                String::from_str(name).concat(" Image cannot be loaded")
            },
            PipelineError::NoJpegEncoder => String::from_str(
                "[core/quality] No JPEG encoder available for quality optimization",
            ),
            PipelineError::NoImage => String::from_str("No image loaded"),
            PipelineError::NoGravity => String::from_str("No gravity option set"),
        }
    }
}

/// The format to write: the one the options ask for, else the one the output
/// path's extension names, else the input path's, else JPEG.
pub open spec fn pick_format(
    requested: Option<ImageFormat>,
    output_format: Option<ImageFormat>,
    input_format: Option<ImageFormat>,
) -> ImageFormat {
    match requested {
        Some(f) => f,
        None => match output_format {
            Some(f) => f,
            None => match input_format {
                Some(f) => f,
                None => ImageFormat::Jpeg,
            },
        },
    }
}

/// The format to write for the options, when writing `output` read from `input`.
pub open spec fn spec_target_format(
    options: ProcessingOptions,
    output: Seq<char>,
    input: Seq<char>,
) -> ImageFormat {
    pick_format(option_format(options), inferred_format(output), inferred_format(input))
}

/// The encoder registered for a format.
pub open spec fn spec_resolve_by_format(
    resolver: Map<ImageFormat, EncoderKind>,
    format: ImageFormat,
) -> Result<EncoderKind, PipelineError> {
    if resolver.dom().contains(format) {
        Ok(resolver[format])
    } else {
        Err(PipelineError::NoEncoder(format))
    }
}

/// The encoder of the output, given the formats that the output and input
/// paths name: refused when format options are given and the output path
/// names another format.
pub open spec fn spec_resolve_for_formats(
    options: ProcessingOptions,
    output_format: Option<ImageFormat>,
    input_format: Option<ImageFormat>,
    resolver: Map<ImageFormat, EncoderKind>,
) -> Result<EncoderKind, PipelineError> {
    let target = pick_format(option_format(options), output_format, input_format);
    match output_format {
        Some(pf) => if options.format is Some && pf != target {
            Err(PipelineError::FormatMismatch)
        } else {
            spec_resolve_by_format(resolver, target)
        },
        None => spec_resolve_by_format(resolver, target),
    }
}

/// The encoder of the output written to `output` from `input`.
pub open spec fn spec_resolve_encoder(
    options: ProcessingOptions,
    output: Seq<char>,
    input: Seq<char>,
    resolver: Map<ImageFormat, EncoderKind>,
) -> Result<EncoderKind, PipelineError> {
    spec_resolve_for_formats(options, inferred_format(output), inferred_format(input), resolver)
}

/// The format to write, given the formats that the output and input paths name.
pub fn pick_target_format(
    options: &ProcessingOptions,
    output_format: Option<ImageFormat>,
    input_format: Option<ImageFormat>,
) -> (f: ImageFormat)
    ensures
        f == pick_format(option_format(*options), output_format, input_format),
{
    match options.get_format() {
        Some(f) => f,
        None => match output_format {
            Some(f) => f,
            None => match input_format {
                Some(f) => f,
                None => ImageFormat::Jpeg,
            },
        },
    }
}

/// The format to write for `options`, when writing `output` read from `input`.
pub fn target_format(options: &ProcessingOptions, output: &str, input: &str) -> (f: ImageFormat)
    ensures
        f == spec_target_format(*options, output@, input@),
{
    pick_target_format(options, infer_format_from_path(output), infer_format_from_path(input))
}

/// The encoder registered for `format`.
pub fn resolve_encoder_by_format(resolver: &CodecResolver, format: ImageFormat) -> (r: Result<
    EncoderKind,
    PipelineError,
>)
    ensures
        r == spec_resolve_by_format(resolver@, format),
{
    match resolver.resolve(format) {
        Some(e) => Ok(e),
        None => Err(PipelineError::NoEncoder(format)),
    }
}

/// The encoder that writes the output, given the formats that the output and
/// input paths name.
pub fn resolve_encoder_for_formats(
    options: &ProcessingOptions,
    output_format: Option<ImageFormat>,
    input_format: Option<ImageFormat>,
    resolver: &CodecResolver,
) -> (r: Result<EncoderKind, PipelineError>)
    ensures
        r == spec_resolve_for_formats(*options, output_format, input_format, resolver@),
{
    let target = pick_target_format(options, output_format, input_format);
    if let Some(path_format) = output_format {
        if options.format.is_some() && path_format != target {
            return Err(PipelineError::FormatMismatch);
        }
    }
    resolve_encoder_by_format(resolver, target)
}

/// The encoder that writes the output.
pub fn resolve_encoder(
    options: &ProcessingOptions,
    output: &str,
    input: &str,
    resolver: &CodecResolver,
) -> (r: Result<EncoderKind, PipelineError>)
    ensures
        r == spec_resolve_encoder(*options, output@, input@, resolver@),
{
    resolve_encoder_for_formats(
        options,
        infer_format_from_path(output),
        infer_format_from_path(input),
        resolver,
    )
}

/// What a quality option does to the image before encoding.
#[derive(Clone, Copy, Debug, PartialEq, Eq, Structural)]
pub enum QualityPlan {
    /// Nothing: no quality is asked for, or the encoder applies it itself.
    Skip,
    /// Encode with the given JPEG encoder at the quality and decode again.
    ReencodeAsJpeg(EncoderKind),
}

/// What `quality_plan_for_formats` decides.
pub open spec fn spec_quality_plan_for_formats(
    options: ProcessingOptions,
    has_image: bool,
    output_format: Option<ImageFormat>,
    input_format: Option<ImageFormat>,
    resolver: Map<ImageFormat, EncoderKind>,
) -> Result<QualityPlan, PipelineError> {
    match options.quality {
        None => Ok(QualityPlan::Skip),
        Some(q) => if q.quality is None {
            Ok(QualityPlan::Skip)
        } else if !has_image {
            Err(PipelineError::ImageNotLoaded)
        } else {
            match spec_resolve_for_formats(options, output_format, input_format, resolver) {
                Err(e) => Err(e),
                Ok(enc) => if native_quality(enc) {
                    Ok(QualityPlan::Skip)
                } else if resolver.dom().contains(ImageFormat::Jpeg) {
                    Ok(QualityPlan::ReencodeAsJpeg(resolver[ImageFormat::Jpeg]))
                } else {
                    Err(PipelineError::NoJpegEncoder)
                },
            }
        },
    }
}

/// What `quality_plan` decides.
pub open spec fn spec_quality_plan(
    options: ProcessingOptions,
    has_image: bool,
    output: Seq<char>,
    input: Seq<char>,
    resolver: Map<ImageFormat, EncoderKind>,
) -> Result<QualityPlan, PipelineError> {
    spec_quality_plan_for_formats(
        options,
        has_image,
        inferred_format(output),
        inferred_format(input),
        resolver,
    )
}

/// How a quality is applied, given the formats that the output and input paths
/// name: skipped without quality, refused without image, left to an encoder
/// that applies it itself, else a JPEG round trip.
pub fn quality_plan_for_formats(
    options: &ProcessingOptions,
    has_image: bool,
    output_format: Option<ImageFormat>,
    input_format: Option<ImageFormat>,
    resolver: &CodecResolver,
) -> (r: Result<QualityPlan, PipelineError>)
    ensures
        r == spec_quality_plan_for_formats(*options, has_image, output_format, input_format, resolver@),
{
    let quality_options = match &options.quality {
        Some(q) => q,
        None => return Ok(QualityPlan::Skip),
    };
    if !quality_options.is_enabled() {
        return Ok(QualityPlan::Skip);
    }
    if !has_image {
        return Err(PipelineError::ImageNotLoaded);
    }
    let encoder = match resolve_encoder_for_formats(options, output_format, input_format, resolver) {
        Ok(e) => e,
        Err(e) => return Err(e),
    };
    if encoder.supports_native_quality_encoding() {
        return Ok(QualityPlan::Skip);
    }
    match resolver.resolve(ImageFormat::Jpeg) {
        Some(jpeg) => Ok(QualityPlan::ReencodeAsJpeg(jpeg)),
        None => Err(PipelineError::NoJpegEncoder),
    }
}

/// How a quality is applied when writing `output` read from `input`.
pub fn quality_plan(
    options: &ProcessingOptions,
    has_image: bool,
    output: &str,
    input: &str,
    resolver: &CodecResolver,
) -> (r: Result<QualityPlan, PipelineError>)
    ensures
        r == spec_quality_plan(*options, has_image, output@, input@, resolver@),
{
    quality_plan_for_formats(
        options,
        has_image,
        infer_format_from_path(output),
        infer_format_from_path(input),
        resolver,
    )
}

/// An image with alpha must be flattened for an encoder that drops alpha.
pub fn needs_flatten(encoder: EncoderKind, has_alpha: bool) -> (b: bool)
    ensures
        b == (!keeps_transparency(encoder) && has_alpha),
{
    !encoder.supports_transparency() && has_alpha
}

/// `side` times a gravity anchor, rounded.
pub open spec fn anchored(side: u32, micros: int) -> u32 {
    clamp_u32(round_div(side * micros, 1_000_000))
}

/// The point of the image that the gravity names: its anchors times the
/// image's size, rounded.
pub fn gravity_coords(image: Option<Geometry>, gravity: Option<GravityOptions>) -> (r: Result<
    (u32, u32),
    PipelineError,
>)
    ensures
        r == (match (image, gravity) {
            (None, _) => Err(PipelineError::NoImage),
            (Some(_), None) => Err(PipelineError::NoGravity),
            (Some(g), Some(grav)) => Ok(
                (anchored(g.width, abscissa_micros(grav)), anchored(g.height, ordinate_micros(grav))),
            ),
        }),
{
    let img = match image {
        Some(g) => g,
        None => return Err(PipelineError::NoImage),
    };
    let gravity = match gravity {
        Some(g) => g,
        None => return Err(PipelineError::NoGravity),
    };
    let (x_coef, y_coef) = gravity.as_coef();
    Ok((anchor(img.width, x_coef.micros), anchor(img.height, y_coef.micros)))
}

fn anchor(side: u32, micros: i64) -> (r: u32)
    requires
        0 <= micros <= 1_000_000,
    ensures
        r == anchored(side, micros as int),
{
    assert((side as i128) * (micros as i128) <= 0x1_0000_0000_0000_0000) by (nonlinear_arith)
        requires
            side <= u32::MAX,
            0 <= micros <= 1_000_000,
    ;
    assert((side as i128) * (micros as i128) >= 0) by (nonlinear_arith)
        requires
            0 <= micros,
    ;
    let v = round_div_i128((side as i128) * (micros as i128), 1_000_000);
    if v > u32::MAX as i128 {
        u32::MAX
    } else {
        v as u32
    }
}

/// The crop window, when the options enable a crop; the gravity defaults to
/// top-left.
pub open spec fn spec_crop_window(options: ProcessingOptions, image: Option<Geometry>) -> Result<
    Option<Area>,
    PipelineError,
> {
    let gravity = match options.gravity {
        Some(g) => g,
        None => GravityOptions::TopLeft,
    };
    match options.crop {
        Some(c) => if c.offset_x is Some || c.offset_y is Some || c.width is Some || c.height is Some {
            match image {
                None => Err(PipelineError::ImageCannotBeLoaded(Stage::Crop)),
                Some(g) => Ok(Some(spec_area(g, c, gravity))),
            }
        } else {
            Ok(None)
        },
        None => Ok(None),
    }
}

/// Where the image is cropped, if the options crop it.
pub fn crop_window(options: &ProcessingOptions, image: Option<Geometry>) -> (r: Result<
    Option<Area>,
    PipelineError,
>)
    requires
        options.crop matches Some(c) ==> (image matches Some(g) ==> area_defined(g, c)),
    ensures
        r == spec_crop_window(*options, image),
{
    let gravity = match options.gravity {
        Some(g) => g,
        None => GravityOptions::TopLeft,
    };
    if let Some(c) = options.crop {
        if c.is_enabled() {
            let g = match image {
                Some(g) => g,
                None => return Err(PipelineError::ImageCannotBeLoaded(Stage::Crop)),
            };
            return Ok(Some(g.area(&c, &gravity)));
        }
    }
    Ok(None)
}

/// The size, strategy and filter of a resize.
#[derive(Clone, Copy, Debug, PartialEq, Eq, Structural)]
pub struct ResizePlan {
    pub width: u32,
    pub height: u32,
    pub strategy: AspectRatioStrategy,
    pub filter: ResizeFilter,
}

/// What `resize_plan` decides.
pub open spec fn spec_resize_plan(options: ProcessingOptions, image: Option<Geometry>) -> Result<
    Option<ResizePlan>,
    PipelineError,
> {
    match options.resize {
        Some(o) => if resize_enabled(o) {
            match image {
                None => Err(PipelineError::ImageCannotBeLoaded(Stage::Resize)),
                Some(g) => Ok(
                    Some(
                        ResizePlan {
                            width: scaled_side(o.width, g.width, o.dpr),
                            height: scaled_side(o.height, g.height, o.dpr),
                            strategy: o.strategy,
                            filter: o.filter,
                        },
                    ),
                ),
            }
        } else {
            Ok(None)
        },
        None => Ok(None),
    }
}

/// The resize to apply, if the options enable one.
pub fn resize_plan(options: &ProcessingOptions, image: Option<Geometry>) -> (r: Result<
    Option<ResizePlan>,
    PipelineError,
>)
    ensures
        r == spec_resize_plan(*options, image),
{
    if let Some(o) = options.resize {
        if o.is_enabled() {
            let g = match image {
                Some(g) => g,
                None => return Err(PipelineError::ImageCannotBeLoaded(Stage::Resize)),
            };
            let (width, height) = o.target_size(g.width, g.height);
            return Ok(Some(ResizePlan { width, height, strategy: o.strategy, filter: o.filter }));
        }
    }
    Ok(None)
}

/// What a stage that needs an image decides: nothing when it is off, its
/// parameter when it is on and an image is loaded, else the stage's error.
pub open spec fn stage_decision<T>(parameter: Option<T>, has_image: bool, stage: Stage) -> Result<
    Option<T>,
    PipelineError,
> {
    match parameter {
        None => Ok(None),
        Some(p) => if has_image {
            Ok(Some(p))
        } else {
            Err(PipelineError::ImageCannotBeLoaded(stage))
        },
    }
}

/// The blur's standard deviation, when the options ask for a blur.
pub fn blur_sigma(options: &ProcessingOptions, has_image: bool) -> (r: Result<
    Option<Decimal>,
    PipelineError,
>)
    ensures
        r == stage_decision(
            match options.blur {
                Some(b) => b.blur,
                None => None,
            },
            has_image,
            Stage::Blur,
        ),
{
    if let Some(b) = options.blur {
        if b.is_enabled() {
            if !has_image {
                return Err(PipelineError::ImageCannotBeLoaded(Stage::Blur));
            }
            return Ok(b.blur);
        }
    }
    Ok(None)
}

/// The rotation angle in degrees, when the options ask for a rotation.
pub fn rotation_degrees(options: &ProcessingOptions, has_image: bool) -> (r: Result<
    Option<Decimal>,
    PipelineError,
>)
    ensures
        r == stage_decision(
            match options.rotate {
                Some(o) => o.angle_degrees,
                None => None,
            },
            has_image,
            Stage::Rotate,
        ),
{
    if let Some(o) = options.rotate {
        if o.is_enabled() {
            if !has_image {
                return Err(PipelineError::ImageCannotBeLoaded(Stage::Rotate));
            }
            return Ok(o.angle_degrees);
        }
    }
    Ok(None)
}

/// The mirroring to apply (horizontal flip first, then vertical), when the
/// options flip or flop.
pub fn mirroring(options: &ProcessingOptions, has_image: bool) -> (r: Result<
    Option<MirrorOptions>,
    PipelineError,
>)
    ensures
        r == stage_decision(
            match options.mirror {
                Some(m) => if m.flip || m.flop {
                    Some(m)
                } else {
                    None
                },
                None => None,
            },
            has_image,
            Stage::Mirror,
        ),
{
    if let Some(m) = options.mirror {
        if m.is_enabled() {
            if !has_image {
                return Err(PipelineError::ImageCannotBeLoaded(Stage::Mirror));
            }
            return Ok(Some(m));
        }
    }
    Ok(None)
}

/// The colour adjustments to apply, when the options ask for any.
pub fn adjustments(options: &ProcessingOptions, has_image: bool) -> (r: Result<
    Option<ImageAdjustmentsOptions>,
    PipelineError,
>)
    ensures
        r == stage_decision(
            match options.image_adjustments {
                Some(a) => if a.grayscale || a.brightness is Some || a.contrast is Some
                    || a.gamma is Some || a.invert || a.sharpen is Some {
                    Some(a)
                } else {
                    None
                },
                None => None,
            },
            has_image,
            Stage::ImageAdjustments,
        ),
{
    if let Some(a) = options.image_adjustments {
        if a.is_enabled() {
            if !has_image {
                return Err(PipelineError::ImageCannotBeLoaded(Stage::ImageAdjustments));
            }
            return Ok(Some(a));
        }
    }
    Ok(None)
}

/// The colour that transparency is flattened onto: the options' background,
/// else opaque white.
pub fn flatten_background(options: &ProcessingOptions) -> (c: Rgba)
    ensures
        c == (match options.background {
            Some(b) => b.color,
            None => white(),
        }),
{
    match options.background {
        Some(b) => b.color,
        None => Rgba::new(255, 255, 255, 255),
    }
}

/// Every encoder of the registry writes the format it is registered for.
pub open spec fn registry_faithful(resolver: Map<ImageFormat, EncoderKind>) -> bool {
    forall|f: ImageFormat| #[trigger] resolver.dom().contains(f) ==> encoder_format(resolver[f]) == f
}

/// An encoder that is resolved for the output writes the target format, when
/// every encoder of the registry writes the format it is registered for; and
/// without a format option the output path never conflicts.
pub proof fn lemma_resolved_encoder_writes_target(
    options: ProcessingOptions,
    output: Seq<char>,
    input: Seq<char>,
    resolver: Map<ImageFormat, EncoderKind>,
)
    requires
        registry_faithful(resolver),
    ensures
        spec_resolve_encoder(options, output, input, resolver) matches Ok(e) ==> encoder_format(e)
            == spec_target_format(options, output, input),
        options.format is None ==> spec_resolve_encoder(options, output, input, resolver)
            != Err::<EncoderKind, PipelineError>(PipelineError::FormatMismatch),
{
    let target = spec_target_format(options, output, input);
    if resolver.dom().contains(target) {
        assert(encoder_format(resolver[target]) == target);
    }
}

/// The default registry writes each format with its own encoder, and has an
/// encoder for every output format and every automatic candidate.
pub proof fn lemma_default_registry_faithful()
    ensures
        registry_faithful(default_registry()),
        forall|f: ImageFormat| supported_output(f) ==> #[trigger] default_registry().dom().contains(f),
        forall|alpha: bool, i: int|
            0 <= i < spec_candidates(alpha).len() ==> default_registry().dom().contains(
                #[trigger] spec_candidates(alpha)[i],
            ),
{
}

/// The crop stage cuts the image to `Geometry::area`'s window of the crop
/// options, anchored at the options' gravity or else top-left, when a crop is
/// enabled and an image is loaded; with no crop enabled it leaves the image.
pub proof fn lemma_crop_window_is_area(options: ProcessingOptions, image: Option<Geometry>)
    ensures
        ({
            let gravity = match options.gravity {
                Some(gr) => gr,
                None => GravityOptions::TopLeft,
            };
            match options.crop {
                Some(c) => if c.offset_x is Some || c.offset_y is Some || c.width is Some
                    || c.height is Some {
                    image matches Some(g) ==> spec_crop_window(options, image) == Ok::<
                        Option<Area>,
                        PipelineError,
                    >(Some(spec_area(g, c, gravity)))
                } else {
                    spec_crop_window(options, image) == Ok::<Option<Area>, PipelineError>(None)
                },
                None => spec_crop_window(options, image) == Ok::<Option<Area>, PipelineError>(None),
            }
        }),
{
}

/// With a quality set and an image loaded, the quality is left to the encoder
/// when the output is written by the JPEG, WebP or AVIF encoder, which apply a
/// quality themselves; for the PNG and GIF encoders the image goes through the
/// registered JPEG encoder (or the plan fails without one). Other failures are
/// those of resolving the encoder.
pub proof fn lemma_quality_plan_by_encoder(
    options: ProcessingOptions,
    output_format: Option<ImageFormat>,
    input_format: Option<ImageFormat>,
    resolver: Map<ImageFormat, EncoderKind>,
)
    requires
        options.quality matches Some(q) && q.quality is Some,
    ensures
        ({
            let plan = spec_quality_plan_for_formats(options, true, output_format, input_format, resolver);
            match spec_resolve_for_formats(options, output_format, input_format, resolver) {
                Ok(e) => if e == EncoderKind::Jpeg || e == EncoderKind::WebP || e == EncoderKind::Avif {
                    plan == Ok::<QualityPlan, PipelineError>(QualityPlan::Skip)
                } else if resolver.dom().contains(ImageFormat::Jpeg) {
                    plan == Ok::<QualityPlan, PipelineError>(QualityPlan::ReencodeAsJpeg(resolver[ImageFormat::Jpeg]))
                } else {
                    plan == Err::<QualityPlan, PipelineError>(PipelineError::NoJpegEncoder)
                },
                Err(err) => plan == Err::<QualityPlan, PipelineError>(err),
            }
        }),
        options.quality matches Some(q) && q.quality is Some ==> spec_quality_plan_for_formats(
            options,
            false,
            output_format,
            input_format,
            resolver,
        ) == Err::<QualityPlan, PipelineError>(PipelineError::ImageNotLoaded),
{
}

/// Only the JPEG encoder drops alpha: an image with alpha is flattened exactly
/// when it is written by the JPEG encoder, and never without alpha. Every
/// encoder of a format in the automatic table keeps alpha exactly when the
/// table says its format supports transparency.
pub proof fn lemma_flatten_only_for_jpeg(e: EncoderKind, has_alpha: bool)
    ensures
        (!keeps_transparency(e) && has_alpha) <==> (e == EncoderKind::Jpeg && has_alpha),
        forall|i: int|
            0 <= i < auto_formats().len() && #[trigger] auto_formats()[i].format == encoder_format(e)
                ==> keeps_transparency(e) == auto_formats()[i].supports_transparency,
{
}

} // verus!
