//! The encoders of the pipeline: what each writes and how its parameters follow
//! from the options, and the registry that picks an encoder by format.
use vstd::prelude::*;
use crate::decimal::{Decimal, clamp_u8, round_div, trunc_div};
use crate::format::{
    ImageFormat,
    format_extensions,
    format_from_extension,
    format_mime_type,
    is_word,
    lemma_extension_names_its_format,
};
use crate::text::{ascii_lower_seq, chars_of, lower_all};
use crate::options::{ProcessingOptions, option_quality};

verus! {

/// The built-in encoders.
#[derive(Clone, Copy, Debug, PartialEq, Eq, Structural)]
pub enum EncoderKind {
    Jpeg,
    Png,
    WebP,
    Avif,
    Gif,
}

/// The format each encoder writes.
pub open spec fn encoder_format(e: EncoderKind) -> ImageFormat {
    match e {
        EncoderKind::Jpeg => ImageFormat::Jpeg,
        EncoderKind::Png => ImageFormat::Png,
        EncoderKind::WebP => ImageFormat::WebP,
        EncoderKind::Avif => ImageFormat::Avif,
        EncoderKind::Gif => ImageFormat::Gif,
    }
}

/// The encoders that apply a quality themselves (JPEG, WebP, AVIF).
pub open spec fn native_quality(e: EncoderKind) -> bool {
    e == EncoderKind::Jpeg || e == EncoderKind::WebP || e == EncoderKind::Avif
}

/// The encoders that keep an alpha channel (all but JPEG).
pub open spec fn keeps_transparency(e: EncoderKind) -> bool {
    e != EncoderKind::Jpeg
}

/// The usual file extension of a format, or `fallback` when it has none.
fn first_extension(f: ImageFormat, fallback: &'static str) -> (r: &'static str)
    ensures
        format_extensions(f).len() > 0 ==> r@ == format_extensions(f)[0],
        format_extensions(f).len() == 0 ==> r@ == fallback@,
{
    let exts = f.extensions_str();
    if exts.len() > 0 {
        exts[0]
    } else {
        fallback
    }
}

impl EncoderKind {
    /// The format the encoder writes.
    pub fn format(&self) -> (f: ImageFormat)
        ensures
            f == encoder_format(*self),
    {
        match self {
            EncoderKind::Jpeg => ImageFormat::Jpeg,
            EncoderKind::Png => ImageFormat::Png,
            EncoderKind::WebP => ImageFormat::WebP,
            EncoderKind::Avif => ImageFormat::Avif,
            EncoderKind::Gif => ImageFormat::Gif,
        }
    }

    /// The usual file extension of the encoder's format.
    pub fn extension(&self) -> (r: &'static str)
        ensures
            r@ == format_extensions(encoder_format(*self))[0],
    {
        let fallback = match self {
            EncoderKind::Jpeg => "jpg",
            EncoderKind::Png => "png",
            EncoderKind::WebP => "webp",
            EncoderKind::Avif => "avif",
            EncoderKind::Gif => "gif",
        };
        first_extension(self.format(), fallback)
    }

    /// The MIME type of the encoder's format.
    pub fn mime_type(&self) -> (r: &'static str)
        ensures
            r@ == format_mime_type(encoder_format(*self)),
    {
        self.format().to_mime_type()
    }

    /// Whether the encoder applies a quality itself.
    pub fn supports_native_quality_encoding(&self) -> (b: bool)
        ensures
            b == native_quality(*self),
    {
        match self {
            EncoderKind::Jpeg | EncoderKind::WebP | EncoderKind::Avif => true,
            EncoderKind::Png | EncoderKind::Gif => false,
        }
    }

    /// Whether the encoder keeps an alpha channel.
    pub fn supports_transparency(&self) -> (b: bool)
        ensures
            b == keeps_transparency(*self),
    {
        match self {
            EncoderKind::Jpeg => false,
            _ => true,
        }
    }
}

/// The encoder that a format name selects, in any ASCII case: `webp`, or
/// `jpeg` and `jpg`.
pub open spec fn named_encoder(name: Seq<char>) -> Option<EncoderKind> {
    let l = ascii_lower_seq(name);
    if l == "webp"@ {
        Some(EncoderKind::WebP)
    } else if l == "jpeg"@ || l == "jpg"@ {
        Some(EncoderKind::Jpeg)
    } else {
        None
    }
}

/// The encoder for a format name, in any case; `None` for any name but `webp`,
/// `jpeg` and `jpg`.
pub fn get_encoder(format: &str) -> (r: Option<EncoderKind>)
    ensures
        r == named_encoder(format@),
{
    let cs = chars_of(format);
    let l = lower_all(cs.as_slice());
    if is_word(&l, "webp") {
        Some(EncoderKind::WebP)
    } else if is_word(&l, "jpeg") || is_word(&l, "jpg") {
        Some(EncoderKind::Jpeg)
    } else {
        None
    }
}

/// JPEG encoder.
#[derive(Clone, Copy, Debug, PartialEq, Eq, Structural)]
pub struct JpegEncoder;

/// PNG encoder.
#[derive(Clone, Copy, Debug, PartialEq, Eq, Structural)]
pub struct PngEncoder;

/// WebP encoder.
#[derive(Clone, Copy, Debug, PartialEq, Eq, Structural)]
pub struct WebPEncoder;

/// AVIF encoder.
#[derive(Clone, Copy, Debug, PartialEq, Eq, Structural)]
pub struct AvifEncoder;

/// GIF encoder.
#[derive(Clone, Copy, Debug, PartialEq, Eq, Structural)]
pub struct GifEncoder;

impl JpegEncoder {
    pub fn kind(&self) -> (k: EncoderKind)
        ensures
            k == EncoderKind::Jpeg,
    {
        EncoderKind::Jpeg
    }

    pub fn format(&self) -> (f: ImageFormat)
        ensures
            f == ImageFormat::Jpeg,
    {
        ImageFormat::Jpeg
    }

    /// `jpg`.
    pub fn extension(&self) -> (r: &'static str)
        ensures
            r@ == format_extensions(ImageFormat::Jpeg)[0],
    {
        EncoderKind::Jpeg.extension()
    }

    /// `image/jpeg`.
    pub fn mime_type(&self) -> (r: &'static str)
        ensures
            r@ == format_mime_type(ImageFormat::Jpeg),
    {
        EncoderKind::Jpeg.mime_type()
    }

    pub fn supports_native_quality_encoding(&self) -> (b: bool)
        ensures
            b,
    {
        true
    }

    pub fn supports_transparency(&self) -> (b: bool)
        ensures
            !b,
    {
        false
    }

    /// The quality to encode with: the option's, truncated to a byte, else 75.
    pub fn quality(options: &ProcessingOptions) -> (q: u8)
        ensures
            q == (match option_quality(*options) {
                Some(d) => clamp_u8(trunc_div(d.micros as int, 1_000_000)),
                None => 75,
            }),
    {
        let q = match &options.quality {
            Some(q) => q.to_u8(),
            None => None,
        };
        match q {
            Some(v) => v,
            None => 75,
        }
    }
}

/// The zlib effort of a PNG encoder (`image::codecs::png::CompressionType`).
#[derive(Clone, Copy, Debug, PartialEq, Eq, Structural)]
pub enum PngCompression {
    Default,
    Fast,
    Best,
}

/// The row filter of a PNG encoder (`image::codecs::png::FilterType`).
#[derive(Clone, Copy, Debug, PartialEq, Eq, Structural)]
pub enum PngFilter {
    NoFilter,
    Sub,
    Up,
    Avg,
    Paeth,
    Adaptive,
}

/// The compression for a quality: 90 to 100 best, 40 to 89 default, else fast.
pub open spec fn png_compression(quality: Option<Decimal>) -> PngCompression {
    let q = match quality {
        Some(d) => clamp_u8(round_div(d.micros as int, 1_000_000)),
        None => 75,
    };
    if 90 <= q <= 100 {
        PngCompression::Best
    } else if 40 <= q <= 89 {
        PngCompression::Default
    } else {
        PngCompression::Fast
    }
}

impl PngEncoder {
    pub fn kind(&self) -> (k: EncoderKind)
        ensures
            k == EncoderKind::Png,
    {
        EncoderKind::Png
    }

    pub fn format(&self) -> (f: ImageFormat)
        ensures
            f == ImageFormat::Png,
    {
        ImageFormat::Png
    }

    /// `png`.
    pub fn extension(&self) -> (r: &'static str)
        ensures
            r@ == format_extensions(ImageFormat::Png)[0],
    {
        EncoderKind::Png.extension()
    }

    /// `image/png`.
    pub fn mime_type(&self) -> (r: &'static str)
        ensures
            r@ == format_mime_type(ImageFormat::Png),
    {
        EncoderKind::Png.mime_type()
    }

    pub fn supports_native_quality_encoding(&self) -> (b: bool)
        ensures
            !b,
    {
        false
    }

    pub fn supports_transparency(&self) -> (b: bool)
        ensures
            b,
    {
        true
    }

    /// Compression and filter for a quality (75 when none): the quality is
    /// rounded to a byte; 90 to 100 compress best, 40 to 89 by default, the
    /// rest fast; the filter is always adaptive.
    pub fn guess_encoding_params(quality: Option<Decimal>) -> (r: (PngCompression, PngFilter))
        ensures
            r.0 == png_compression(quality),
            r.1 == PngFilter::Adaptive,
    {
        let q = match quality {
            Some(d) => d.round_to_u8(),
            None => 75,
        };
        let compression = if 90 <= q && q <= 100 {
            PngCompression::Best
        } else if 40 <= q && q <= 89 {
            PngCompression::Default
        } else {
            PngCompression::Fast
        };
        (compression, PngFilter::Adaptive)
    }
}

/// Why an encoder refuses its options or its image.
#[derive(Clone, Copy, Debug, PartialEq, Eq, Structural)]
pub enum EncodeError {
    QualityNotSet,
    /// The PNG encoder takes no floating-point samples.
    UnsupportedPngLayout,
}

impl EncodeError {
    /// The error message.
    pub fn to_string(&self) -> (r: String)
        ensures
            r@ == (match *self {
                EncodeError::QualityNotSet => "Quality value is not set in ProcessingOptions"@,
                EncodeError::UnsupportedPngLayout => "Unsupported DynamicImage variant for PNG encoding"@,
            }),
    {
        match self {
            EncodeError::QualityNotSet => String::from_str("Quality value is not set in ProcessingOptions"),
            EncodeError::UnsupportedPngLayout => String::from_str(
                "Unsupported DynamicImage variant for PNG encoding",
            ),
        }
    }
}

/// How the samples of a decoded image are laid out: channels and sample type.
#[derive(Clone, Copy, Debug, PartialEq, Eq, Structural)]
pub enum PixelLayout {
    L8,
    La8,
    Rgb8,
    Rgba8,
    L16,
    La16,
    Rgb16,
    Rgba16,
    Rgb32F,
    Rgba32F,
}

/// The colour types that the PNG encoder writes.
#[derive(Clone, Copy, Debug, PartialEq, Eq, Structural)]
pub enum PngColorType {
    L8,
    La8,
    Rgb8,
    Rgba8,
    L16,
    La16,
    Rgb16,
    Rgba16,
}

/// The PNG colour type of a layout: each 8- and 16-bit layout has its own;
/// floating-point layouts have none.
pub open spec fn spec_png_color_type(l: PixelLayout) -> Option<PngColorType> {
    match l {
        PixelLayout::L8 => Some(PngColorType::L8),
        PixelLayout::La8 => Some(PngColorType::La8),
        PixelLayout::Rgb8 => Some(PngColorType::Rgb8),
        PixelLayout::Rgba8 => Some(PngColorType::Rgba8),
        PixelLayout::L16 => Some(PngColorType::L16),
        PixelLayout::La16 => Some(PngColorType::La16),
        PixelLayout::Rgb16 => Some(PngColorType::Rgb16),
        PixelLayout::Rgba16 => Some(PngColorType::Rgba16),
        PixelLayout::Rgb32F | PixelLayout::Rgba32F => None,
    }
}

/// Bytes per pixel of a layout: channels times bytes per sample.
pub open spec fn spec_bytes_per_pixel(l: PixelLayout) -> nat {
    match l {
        PixelLayout::L8 => 1,
        PixelLayout::La8 => 2,
        PixelLayout::Rgb8 => 3,
        PixelLayout::Rgba8 => 4,
        PixelLayout::L16 => 2,
        PixelLayout::La16 => 4,
        PixelLayout::Rgb16 => 6,
        PixelLayout::Rgba16 => 8,
        PixelLayout::Rgb32F => 12,
        PixelLayout::Rgba32F => 16,
    }
}

/// The PNG colour type for the samples of an image, if the PNG encoder takes them.
pub fn png_color_type(l: PixelLayout) -> (r: Option<PngColorType>)
    ensures
        r == spec_png_color_type(l),
{
    match l {
        PixelLayout::L8 => Some(PngColorType::L8),
        PixelLayout::La8 => Some(PngColorType::La8),
        PixelLayout::Rgb8 => Some(PngColorType::Rgb8),
        PixelLayout::Rgba8 => Some(PngColorType::Rgba8),
        PixelLayout::L16 => Some(PngColorType::L16),
        PixelLayout::La16 => Some(PngColorType::La16),
        PixelLayout::Rgb16 => Some(PngColorType::Rgb16),
        PixelLayout::Rgba16 => Some(PngColorType::Rgba16),
        PixelLayout::Rgb32F | PixelLayout::Rgba32F => None,
    }
}

/// Bytes per pixel of a layout.
pub fn bytes_per_pixel(l: PixelLayout) -> (r: u8)
    ensures
        r == spec_bytes_per_pixel(l),
{
    match l {
        PixelLayout::L8 => 1,
        PixelLayout::La8 => 2,
        PixelLayout::Rgb8 => 3,
        PixelLayout::Rgba8 => 4,
        PixelLayout::L16 => 2,
        PixelLayout::La16 => 4,
        PixelLayout::Rgb16 => 6,
        PixelLayout::Rgba16 => 8,
        PixelLayout::Rgb32F => 12,
        PixelLayout::Rgba32F => 16,
    }
}

/// The length in bytes of the samples of a `width` by `height` image.
pub fn buffer_len(l: PixelLayout, width: u32, height: u32) -> (r: u128)
    ensures
        r == width * height * spec_bytes_per_pixel(l),
{
    assert((width as u128) * (height as u128) <= 0xffff_ffff_ffff_ffff_ffff_ffff) by (nonlinear_arith)
        requires
            width <= u32::MAX,
            height <= u32::MAX,
    ;
    (width as u128) * (height as u128) * (bytes_per_pixel(l) as u128)
}

impl PngEncoder {
    /// The PNG colour type of the samples, or the error of a layout the PNG
    /// encoder does not take.
    pub fn color_type(l: PixelLayout) -> (r: Result<PngColorType, EncodeError>)
        ensures
            r == (match spec_png_color_type(l) {
                Some(c) => Ok(c),
                None => Err(EncodeError::UnsupportedPngLayout),
            }),
    {
        match png_color_type(l) {
            Some(c) => Ok(c),
            None => Err(EncodeError::UnsupportedPngLayout),
        }
    }
}

/// The quality of the options, which must be set.
pub fn extract_quality(options: &ProcessingOptions) -> (r: Result<Decimal, EncodeError>)
    ensures
        r == (match option_quality(*options) {
            Some(q) => Ok(q),
            None => Err(EncodeError::QualityNotSet),
        }),
{
    match options.get_quality() {
        Some(q) => Ok(q),
        None => Err(EncodeError::QualityNotSet),
    }
}

impl WebPEncoder {
    pub fn kind(&self) -> (k: EncoderKind)
        ensures
            k == EncoderKind::WebP,
    {
        EncoderKind::WebP
    }

    pub fn format(&self) -> (f: ImageFormat)
        ensures
            f == ImageFormat::WebP,
    {
        ImageFormat::WebP
    }

    /// `webp`.
    pub fn extension(&self) -> (r: &'static str)
        ensures
            r@ == format_extensions(ImageFormat::WebP)[0],
    {
        EncoderKind::WebP.extension()
    }

    /// `image/webp`.
    pub fn mime_type(&self) -> (r: &'static str)
        ensures
            r@ == format_mime_type(ImageFormat::WebP),
    {
        EncoderKind::WebP.mime_type()
    }

    pub fn supports_native_quality_encoding(&self) -> (b: bool)
        ensures
            b,
    {
        true
    }

    pub fn supports_transparency(&self) -> (b: bool)
        ensures
            b,
    {
        true
    }
}

/// Encoder speed for a quality byte: the higher the quality, the slower.
pub open spec fn avif_speed(q: u8) -> u8 {
    if 81 <= q <= 100 {
        1
    } else if 61 <= q <= 80 {
        3
    } else if 41 <= q <= 60 {
        5
    } else if 21 <= q <= 40 {
        7
    } else if 1 <= q <= 20 {
        10
    } else {
        5
    }
}

/// Encoder threads for a quality byte on a machine with `cores` threads:
/// all (no limit) for high qualities, half for middle ones, a quarter for low
/// ones, at least one.
pub open spec fn avif_threads(q: u8, cores: usize) -> Option<usize> {
    if 61 <= q <= 100 {
        None
    } else if 21 <= q <= 60 {
        Some(if cores / 2 >= 1 {
            (cores / 2) as usize
        } else {
            1
        })
    } else if 1 <= q <= 20 {
        Some(if cores / 4 >= 1 {
            (cores / 4) as usize
        } else {
            1
        })
    } else {
        None
    }
}

impl AvifEncoder {
    pub fn kind(&self) -> (k: EncoderKind)
        ensures
            k == EncoderKind::Avif,
    {
        EncoderKind::Avif
    }

    pub fn format(&self) -> (f: ImageFormat)
        ensures
            f == ImageFormat::Avif,
    {
        ImageFormat::Avif
    }

    /// `avif`.
    pub fn extension(&self) -> (r: &'static str)
        ensures
            r@ == format_extensions(ImageFormat::Avif)[0],
    {
        EncoderKind::Avif.extension()
    }

    /// `image/avif`.
    pub fn mime_type(&self) -> (r: &'static str)
        ensures
            r@ == format_mime_type(ImageFormat::Avif),
    {
        EncoderKind::Avif.mime_type()
    }

    pub fn supports_native_quality_encoding(&self) -> (b: bool)
        ensures
            b,
    {
        true
    }

    pub fn supports_transparency(&self) -> (b: bool)
        ensures
            b,
    {
        true
    }

    /// Whether the thread count of a quality depends on the machine's threads:
    /// for quality bytes 1 to 60 (as `guess_encoding_params` truncates them).
    pub fn uses_core_count(quality: Option<Decimal>) -> (b: bool)
        ensures
            ({
                let q = match quality {
                    Some(d) => clamp_u8(trunc_div(d.micros as int, 1_000_000)),
                    None => 75,
                };
                &&& b == (1 <= q <= 60)
                &&& !b ==> forall|c1: usize, c2: usize| avif_threads(q, c1) == avif_threads(q, c2)
            }),
    {
        let q = match quality {
            Some(d) => d.to_u8_saturating(),
            None => 75,
        };
        1 <= q && q <= 60
    }

    /// Speed, quality and thread count for a quality (75 when none), on a
    /// machine that offers `cores` threads: the quality is truncated to a byte.
    pub fn guess_encoding_params(quality: Option<Decimal>, cores: usize) -> (r: (
        u8,
        u8,
        Option<usize>,
    ))
        ensures
            ({
                let q = match quality {
                    Some(d) => clamp_u8(trunc_div(d.micros as int, 1_000_000)),
                    None => 75,
                };
                r == (avif_speed(q), q, avif_threads(q, cores))
            }),
    {
        let q = match quality {
            Some(d) => d.to_u8_saturating(),
            None => 75,
        };
        let speed: u8 = if 81 <= q && q <= 100 {
            1
        } else if 61 <= q && q <= 80 {
            3
        } else if 41 <= q && q <= 60 {
            5
        } else if 21 <= q && q <= 40 {
            7
        } else if 1 <= q && q <= 20 {
            10
        } else {
            5
        };
        let threads = if 61 <= q && q <= 100 {
            None
        } else if 21 <= q && q <= 60 {
            Some(if cores / 2 >= 1 {
                cores / 2
            } else {
                1
            })
        } else if 1 <= q && q <= 20 {
            Some(if cores / 4 >= 1 {
                cores / 4
            } else {
                1
            })
        } else {
            None
        };
        (speed, q, threads)
    }
}

impl GifEncoder {
    pub fn kind(&self) -> (k: EncoderKind)
        ensures
            k == EncoderKind::Gif,
    {
        EncoderKind::Gif
    }

    pub fn format(&self) -> (f: ImageFormat)
        ensures
            f == ImageFormat::Gif,
    {
        ImageFormat::Gif
    }

    /// `gif`.
    pub fn extension(&self) -> (r: &'static str)
        ensures
            r@ == format_extensions(ImageFormat::Gif)[0],
    {
        EncoderKind::Gif.extension()
    }

    /// `image/gif`.
    pub fn mime_type(&self) -> (r: &'static str)
        ensures
            r@ == format_mime_type(ImageFormat::Gif),
    {
        EncoderKind::Gif.mime_type()
    }

    pub fn supports_native_quality_encoding(&self) -> (b: bool)
        ensures
            !b,
    {
        false
    }

    pub fn supports_transparency(&self) -> (b: bool)
        ensures
            b,
    {
        true
    }
}

// ---------------------------------------------------------------- registry

/// The encoders registered by format.
pub struct CodecResolver {
    entries: Vec<(ImageFormat, EncoderKind)>,
}

/// The map that a list of entries stands for; a later entry for the same
/// format wins.
pub open spec fn entries_map(s: Seq<(ImageFormat, EncoderKind)>) -> Map<ImageFormat, EncoderKind>
    decreases s.len(),
{
    if s.len() == 0 {
        Map::empty()
    } else {
        entries_map(s.drop_last()).insert(s.last().0, s.last().1)
    }
}

/// No format occurs twice.
pub open spec fn distinct_formats(s: Seq<(ImageFormat, EncoderKind)>) -> bool {
    forall|i: int, j: int| 0 <= i < j < s.len() ==> s[i].0 != s[j].0
}

proof fn lemma_entries_map_dom(s: Seq<(ImageFormat, EncoderKind)>, f: ImageFormat)
    ensures
        entries_map(s).dom().contains(f) <==> exists|i: int| 0 <= i < s.len() && s[i].0 == f,
    decreases s.len(),
{
    if s.len() > 0 {
        lemma_entries_map_dom(s.drop_last(), f);
        if entries_map(s).dom().contains(f) && s.last().0 != f {
            let i = choose|i: int| 0 <= i < s.drop_last().len() && s.drop_last()[i].0 == f;
            assert(s[i].0 == f);
        }
        if exists|i: int| 0 <= i < s.len() && s[i].0 == f {
            let i = choose|i: int| 0 <= i < s.len() && s[i].0 == f;
            if i < s.len() - 1 {
                assert(s.drop_last()[i].0 == f);
            }
        }
    }
}

proof fn lemma_entries_map_at(s: Seq<(ImageFormat, EncoderKind)>, i: int)
    requires
        distinct_formats(s),
        0 <= i < s.len(),
    ensures
        entries_map(s).dom().contains(s[i].0),
        entries_map(s)[s[i].0] == s[i].1,
    decreases s.len(),
{
    if i < s.len() - 1 {
        lemma_entries_map_at(s.drop_last(), i);
    }
}

proof fn lemma_entries_map_update(s: Seq<(ImageFormat, EncoderKind)>, i: int, e: EncoderKind)
    requires
        distinct_formats(s),
        0 <= i < s.len(),
    ensures
        entries_map(s.update(i, (s[i].0, e))) =~= entries_map(s).insert(s[i].0, e),
    decreases s.len(),
{
    let f = s[i].0;
    let t = s.update(i, (f, e));
    if i == s.len() - 1 {
        assert(t.drop_last() =~= s.drop_last());
        lemma_entries_map_dom(s.drop_last(), f);
        assert(entries_map(t) =~= entries_map(s).insert(f, e));
    } else {
        assert(t.drop_last() =~= s.drop_last().update(i, (f, e)));
        lemma_entries_map_update(s.drop_last(), i, e);
        assert(s.last().0 != f);
        assert(entries_map(t) =~= entries_map(s).insert(f, e));
    }
}

impl View for CodecResolver {
    type V = Map<ImageFormat, EncoderKind>;

    closed spec fn view(&self) -> Map<ImageFormat, EncoderKind> {
        entries_map(self.entries@)
    }
}

impl CodecResolver {
    #[verifier::type_invariant]
    spec fn distinct(self) -> bool {
        distinct_formats(self.entries@)
    }

    /// A resolver with no encoder.
    pub fn new() -> (r: CodecResolver)
        ensures
            r@ == Map::<ImageFormat, EncoderKind>::empty(),
    {
        CodecResolver { entries: Vec::new() }
    }

    /// Registers `encoder` for `format`, replacing any encoder registered before.
    pub fn register_encoder(&mut self, format: ImageFormat, encoder: EncoderKind)
        ensures
            final(self)@ == old(self)@.insert(format, encoder),
    {
        proof {
            use_type_invariant(&*self);
        }
        let n = self.entries.len();
        let mut i: usize = 0;
        while i < n
            invariant
                n == self.entries@.len(),
                i <= n,
                self.entries@ == old(self).entries@,
                distinct_formats(self.entries@),
                forall|j: int| 0 <= j < i ==> self.entries@[j].0 != format,
            decreases n - i,
        {
            if self.entries[i].0 == format {
                let ghost before = self.entries@;
                proof {
                    lemma_entries_map_update(before, i as int, encoder);
                }
                let mut entries: Vec<(ImageFormat, EncoderKind)> = Vec::new();
                std::mem::swap(&mut entries, &mut self.entries);
                entries.set(i, (format, encoder));
                assert(entries@ =~= before.update(i as int, (format, encoder)));
                assert(distinct_formats(entries@));
                self.entries = entries;
                return;
            }
            i = i + 1;
        }
        let ghost before = self.entries@;
        proof {
            lemma_entries_map_dom(before, format);
        }
        let mut entries: Vec<(ImageFormat, EncoderKind)> = Vec::new();
        std::mem::swap(&mut entries, &mut self.entries);
        entries.push((format, encoder));
        assert(entries@.drop_last() =~= before);
        assert(distinct_formats(entries@));
        self.entries = entries;
    }

    /// The encoder registered for `format`.
    pub fn resolve(&self, format: ImageFormat) -> (r: Option<EncoderKind>)
        ensures
            r == (if self@.dom().contains(format) {
                Some(self@[format])
            } else {
                None
            }),
    {
        proof {
            use_type_invariant(self);
        }
        let n = self.entries.len();
        let mut i: usize = 0;
        while i < n
            invariant
                n == self.entries@.len(),
                i <= n,
                distinct_formats(self.entries@),
                forall|j: int| 0 <= j < i ==> self.entries@[j].0 != format,
            decreases n - i,
        {
            if self.entries[i].0 == format {
                proof {
                    lemma_entries_map_at(self.entries@, i as int);
                }
                return Some(self.entries[i].1);
            }
            i = i + 1;
        }
        proof {
            lemma_entries_map_dom(self.entries@, format);
        }
        None
    }

    /// The formats that have an encoder, each once.
    pub fn supported_formats(&self) -> (v: Vec<ImageFormat>)
        ensures
            forall|f: ImageFormat| v@.contains(f) <==> self@.dom().contains(f),
            forall|i: int, j: int| 0 <= i < j < v@.len() ==> v@[i] != v@[j],
    {
        proof {
            use_type_invariant(self);
        }
        let n = self.entries.len();
        let mut v: Vec<ImageFormat> = Vec::new();
        let mut i: usize = 0;
        while i < n
            invariant
                n == self.entries@.len(),
                i <= n,
                distinct_formats(self.entries@),
                v@.len() == i,
                forall|j: int| 0 <= j < i ==> v@[j] == self.entries@[j].0,
            decreases n - i,
        {
            v.push(self.entries[i].0);
            i = i + 1;
        }
        proof {
            assert forall|f: ImageFormat| v@.contains(f) <==> self@.dom().contains(f) by {
                lemma_entries_map_dom(self.entries@, f);
                if self@.dom().contains(f) {
                    let k = choose|k: int| 0 <= k < n && self.entries@[k].0 == f;
                    assert(v@[k] == f);
                }
            }
        }
        v
    }
}

/// The encoders registered by default: each output format by its own encoder.
pub open spec fn default_registry() -> Map<ImageFormat, EncoderKind> {
    Map::<ImageFormat, EncoderKind>::empty().insert(ImageFormat::Jpeg, EncoderKind::Jpeg).insert(
        ImageFormat::Png,
        EncoderKind::Png,
    ).insert(ImageFormat::WebP, EncoderKind::WebP).insert(ImageFormat::Avif, EncoderKind::Avif).insert(
        ImageFormat::Gif,
        EncoderKind::Gif,
    )
}

impl Default for CodecResolver {
    /// JPEG, PNG, WebP, AVIF and GIF, each by its own encoder.
    fn default() -> (r: CodecResolver)
        ensures
            r@ == default_registry(),
    {
        let mut resolver = CodecResolver::new();
        resolver.register_encoder(ImageFormat::Jpeg, EncoderKind::Jpeg);
        resolver.register_encoder(ImageFormat::Png, EncoderKind::Png);
        resolver.register_encoder(ImageFormat::WebP, EncoderKind::WebP);
        resolver.register_encoder(ImageFormat::Avif, EncoderKind::Avif);
        resolver.register_encoder(ImageFormat::Gif, EncoderKind::Gif);
        resolver
    }
}

/// What `resolve` gives back of `register_encoder`: the encoder just
/// registered for a format, and for every other format what was there before.
pub proof fn lemma_register_then_resolve(
    before: Map<ImageFormat, EncoderKind>,
    format: ImageFormat,
    encoder: EncoderKind,
    other: ImageFormat,
)
    requires
        other != format,
    ensures
        before.insert(format, encoder).dom().contains(format),
        before.insert(format, encoder)[format] == encoder,
        before.insert(format, encoder).dom().contains(other) == before.dom().contains(other),
        before.dom().contains(other) ==> before.insert(format, encoder)[other] == before[other],
{
}

/// The extension an encoder writes names the encoder's own format again, so a
/// path that ends in it is read back as that format.
pub proof fn lemma_encoder_extension_names_its_format(e: EncoderKind)
    ensures
        format_from_extension(format_extensions(encoder_format(e))[0]) == Some(encoder_format(e)),
{
    lemma_extension_names_its_format(encoder_format(e), 0);
}

/// The encoders that apply a quality themselves are exactly those of JPEG,
/// WebP and AVIF, whose codecs take a quality; PNG and GIF take none.
pub proof fn lemma_native_quality_encoders(e: EncoderKind)
    ensures
        native_quality(e) <==> (e == EncoderKind::Jpeg || e == EncoderKind::WebP || e
            == EncoderKind::Avif),
        native_quality(e) <==> (encoder_format(e) == ImageFormat::Jpeg || encoder_format(e)
            == ImageFormat::WebP || encoder_format(e) == ImageFormat::Avif),
{
}

} // verus!
