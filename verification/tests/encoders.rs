use wiot::decimal::Decimal;
use wiot::encoders::{
    AvifEncoder, CodecResolver, EncoderKind, GifEncoder, JpegEncoder, PngCompression, PngEncoder,
    PngFilter, WebPEncoder, extract_quality, get_encoder,
};
use wiot::format::ImageFormat;
use wiot::options::{ProcessingOptions, QualityOptions};

fn dec(v: f64) -> Decimal {
    Decimal::from_micros((v * 1_000_000.0).round() as i64)
}

fn with_quality(q: Option<f64>) -> ProcessingOptions {
    ProcessingOptions {
        quality: Some(QualityOptions { quality: q.map(dec) }),
        ..Default::default()
    }
}

// ---------------------------------------------------------------- avif

#[test]
fn test_extension_returns_avif() {
    let encoder = AvifEncoder;
    assert_eq!(encoder.extension(), "avif");
}

#[test]
fn avif_test_mime_type_is_correct() {
    let encoder = AvifEncoder;
    assert_eq!(encoder.mime_type(), "image/avif");
}

#[test]
fn test_format_returns_avif_format() {
    let encoder = AvifEncoder;
    assert_eq!(encoder.format(), ImageFormat::Avif);
}

#[test]
fn avif_test_supports_native_quality_encoding() {
    let encoder = AvifEncoder;
    assert!(encoder.supports_native_quality_encoding());
}

#[test]
fn test_guess_encoding_params() {
    let available_cores: usize = 8;
    let quarter_cores = std::cmp::max(available_cores / 4, 1);
    let half_cores = std::cmp::max(available_cores / 2, 1);

    let cases = vec![
        (1.0, 1u8, 10u8, Some(quarter_cores)),
        (20.0, 20u8, 10u8, Some(quarter_cores)),
        (21.0, 21u8, 7u8, Some(half_cores)),
        (40.0, 40u8, 7u8, Some(half_cores)),
        (41.0, 41u8, 5u8, Some(half_cores)),
        (60.0, 60u8, 5u8, Some(half_cores)),
        (61.0, 61u8, 3u8, None),
        (80.0, 80u8, 3u8, None),
        (81.0, 81u8, 1u8, None),
        (100.0, 100u8, 1u8, None),
    ];

    for (i, case) in cases.iter().enumerate() {
        let (speed, q, thread_pool_size) =
            AvifEncoder::guess_encoding_params(Some(dec(case.0)), available_cores);
        assert!(speed == case.2, "Failed to validate speed at {}: {:?}", i, case);
        assert!(q == case.1, "Failed to validate quality at {}: {:?}", i, case);
        assert!(thread_pool_size == case.3, "Failed to validate thread pool size at {}: {:?}", i, case);
    }
}

#[test]
fn avif_params_at_the_edges() {
    assert_eq!(AvifEncoder::guess_encoding_params(None, 8), (3, 75, None));
    assert_eq!(AvifEncoder::guess_encoding_params(Some(dec(0.0)), 8), (5, 0, None));
    assert_eq!(AvifEncoder::guess_encoding_params(Some(dec(20.9)), 8), (10, 20, Some(2)));
    assert_eq!(AvifEncoder::guess_encoding_params(Some(dec(10.0)), 1), (10, 10, Some(1)));
    assert_eq!(AvifEncoder::guess_encoding_params(Some(dec(300.0)), 8), (5, 255, None));
    assert_eq!(AvifEncoder::guess_encoding_params(Some(dec(-4.0)), 8), (5, 0, None));
}

#[test]
fn avif_test_encode_fails_without_quality() {
    let options = ProcessingOptions { quality: None, ..Default::default() };
    let result = extract_quality(&options);
    assert!(result.is_err(), "Encoding should fail without quality");
    assert_eq!(result.unwrap_err().to_string(), "Quality value is not set in ProcessingOptions");
    assert!(extract_quality(&with_quality(None)).is_err());
    assert_eq!(extract_quality(&with_quality(Some(42.5))), Ok(dec(42.5)));
}

// ---------------------------------------------------------------- gif

#[test]
fn test_extension_returns_gif() {
    let encoder = GifEncoder;
    assert_eq!(encoder.extension(), "gif");
}

#[test]
fn gif_test_mime_type_returns_correct_value() {
    let encoder = GifEncoder;
    assert_eq!(encoder.mime_type(), "image/gif");
}

#[test]
fn test_format_returns_gif_format() {
    let encoder = GifEncoder;
    assert_eq!(encoder.format(), ImageFormat::Gif);
}

#[test]
fn gif_test_supports_native_quality_encoding_is_false() {
    let encoder = GifEncoder;
    assert!(!encoder.supports_native_quality_encoding());
}

// ---------------------------------------------------------------- jpeg

#[test]
fn test_extension_is_jpg() {
    let encoder = JpegEncoder;
    assert_eq!(encoder.extension(), "jpg");
}

#[test]
fn test_mime_type_is_image_jpeg() {
    let encoder = JpegEncoder;
    assert_eq!(encoder.mime_type(), "image/jpeg");
}

#[test]
fn test_format_is_jpeg() {
    let encoder = JpegEncoder;
    assert_eq!(encoder.format(), ImageFormat::Jpeg);
}

#[test]
fn jpeg_test_supports_native_quality_encoding() {
    let encoder = JpegEncoder;
    assert!(encoder.supports_native_quality_encoding());
}

#[test]
fn jpeg_quality_defaults_to_75() {
    assert_eq!(JpegEncoder::quality(&ProcessingOptions::default()), 75);
    assert_eq!(JpegEncoder::quality(&with_quality(None)), 75);
    assert_eq!(JpegEncoder::quality(&with_quality(Some(33.9))), 33);
}

// ---------------------------------------------------------------- png

#[test]
fn test_extension_returns_png() {
    let encoder = PngEncoder;
    assert_eq!(encoder.extension(), "png");
}

#[test]
fn png_test_mime_type_returns_correct_value() {
    let encoder = PngEncoder;
    assert_eq!(encoder.mime_type(), "image/png");
}

#[test]
fn test_format_returns_png_format() {
    let encoder = PngEncoder;
    assert_eq!(encoder.format(), ImageFormat::Png);
}

#[test]
fn png_test_supports_native_quality_encoding_is_false() {
    let encoder = PngEncoder;
    assert!(!encoder.supports_native_quality_encoding());
}

#[test]
fn for_quality_levels() {
    let test_cases = vec![
        (Some(95.0), PngCompression::Best),
        (Some(90.0), PngCompression::Best),
        (Some(89.0), PngCompression::Default),
        (Some(75.0), PngCompression::Default),
        (Some(40.0), PngCompression::Default),
        (Some(39.0), PngCompression::Fast),
        (Some(10.0), PngCompression::Fast),
        (None, PngCompression::Default),
    ];

    for (quality, expected_compression) in test_cases {
        let (compression, filter) = PngEncoder::guess_encoding_params(quality.map(dec));
        assert_eq!(compression, expected_compression, "Failed for quality: {:?}", quality);
        assert_eq!(filter, PngFilter::Adaptive, "Filter should always be Adaptive");
    }
}

#[test]
fn png_quality_is_rounded_before_mapping() {
    assert_eq!(PngEncoder::guess_encoding_params(Some(dec(89.5))).0, PngCompression::Best);
    assert_eq!(PngEncoder::guess_encoding_params(Some(dec(39.5))).0, PngCompression::Default);
    assert_eq!(PngEncoder::guess_encoding_params(Some(dec(39.4))).0, PngCompression::Fast);
    assert_eq!(PngEncoder::guess_encoding_params(Some(dec(100.6))).0, PngCompression::Fast);
}

// ---------------------------------------------------------------- webp

#[test]
fn test_extension_returns_webp() {
    let encoder = WebPEncoder;
    assert_eq!(encoder.extension(), "webp");
}

#[test]
fn webp_test_mime_type_is_correct() {
    let encoder = WebPEncoder;
    assert_eq!(encoder.mime_type(), "image/webp");
}

#[test]
fn test_format_returns_webp_format() {
    let encoder = WebPEncoder;
    assert_eq!(encoder.format(), ImageFormat::WebP);
}

#[test]
fn webp_test_supports_native_quality_encoding() {
    let encoder = WebPEncoder;
    assert!(encoder.supports_native_quality_encoding());
}

#[test]
fn webp_test_encode_fails_without_quality() {
    assert!(extract_quality(&ProcessingOptions::default()).is_err());
}

// ---------------------------------------------------------------- resolution

#[test]
fn test_encoder_resolution() {
    assert!(get_encoder("webp").is_some());
    assert!(get_encoder("jpeg").is_some());
    assert!(get_encoder("jpg").is_some());
    assert!(get_encoder("png").is_none());
    assert_eq!(get_encoder("WebP"), Some(EncoderKind::WebP));
    assert_eq!(get_encoder("JPG"), Some(EncoderKind::Jpeg));
}

#[test]
fn codec_resolver_registers_and_replaces() {
    let mut r = CodecResolver::new();
    assert_eq!(r.resolve(ImageFormat::Png), None);
    assert!(r.supported_formats().is_empty());
    r.register_encoder(ImageFormat::Png, EncoderKind::Png);
    r.register_encoder(ImageFormat::Avif, EncoderKind::Avif);
    assert_eq!(r.resolve(ImageFormat::Png), Some(EncoderKind::Png));
    assert_eq!(r.resolve(ImageFormat::Avif), Some(EncoderKind::Avif));
    r.register_encoder(ImageFormat::Png, EncoderKind::Gif);
    assert_eq!(r.resolve(ImageFormat::Png), Some(EncoderKind::Gif));
    assert_eq!(r.resolve(ImageFormat::Avif), Some(EncoderKind::Avif));
    let mut formats = r.supported_formats();
    formats.sort_by_key(|f| format!("{:?}", f));
    assert_eq!(formats, vec![ImageFormat::Avif, ImageFormat::Png]);
}

#[test]
fn default_resolver_has_every_output_format() {
    let r = CodecResolver::default();
    assert_eq!(r.resolve(ImageFormat::Jpeg), Some(EncoderKind::Jpeg));
    assert_eq!(r.resolve(ImageFormat::Png), Some(EncoderKind::Png));
    assert_eq!(r.resolve(ImageFormat::WebP), Some(EncoderKind::WebP));
    assert_eq!(r.resolve(ImageFormat::Avif), Some(EncoderKind::Avif));
    assert_eq!(r.resolve(ImageFormat::Gif), Some(EncoderKind::Gif));
    assert_eq!(r.resolve(ImageFormat::Tiff), None);
    assert_eq!(r.supported_formats().len(), 5);
}

#[test]
fn encoder_kinds_describe_themselves() {
    let kinds = [EncoderKind::Jpeg, EncoderKind::Png, EncoderKind::WebP, EncoderKind::Avif, EncoderKind::Gif];
    for k in kinds {
        assert_eq!(ImageFormat::from_extension(k.extension()), Some(k.format()));
        assert_eq!(k.mime_type(), k.format().to_mime_type());
    }
    assert!(!EncoderKind::Jpeg.supports_transparency());
    assert!(EncoderKind::Png.supports_transparency());
    assert!(!EncoderKind::Gif.supports_native_quality_encoding());
    assert_eq!(JpegEncoder.kind(), EncoderKind::Jpeg);
    assert_eq!(WebPEncoder.kind(), EncoderKind::WebP);
}
