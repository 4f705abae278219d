use sha2::{Digest, Sha256};
use wiot::auto_format::{
    auto_format_candidates, auto_output_file_name, checksum_hex, default_auto_formats,
    find_smallest_encoded, hex_lower,
};
use wiot::coord::Coord;
use wiot::crop::{Area, CropOptions, Geometry};
use wiot::decimal::Decimal;
use wiot::encoders::{CodecResolver, EncoderKind};
use wiot::format::ImageFormat;
use wiot::gravity::GravityOptions;
use wiot::options::{FormatOptions, ProcessingOptions, QualityOptions, ResizeFilter, ResizeOptions};
use wiot::pipeline::{
    PipelineError, QualityPlan, ResizePlan, Stage, crop_window, gravity_coords, needs_flatten,
    pick_target_format, quality_plan, quality_plan_for_formats, resolve_encoder,
    resolve_encoder_for_formats, resize_plan, target_format,
};

fn dec(v: f64) -> Decimal {
    Decimal::from_micros((v * 1_000_000.0).round() as i64)
}

fn with_format(format: Option<FormatOptions>) -> ProcessingOptions {
    ProcessingOptions { format, ..Default::default() }
}

// ---------------------------------------------------------------- encoder resolution

#[test]
fn resolve_encoder_errors_on_format_extension_mismatch() {
    let options = with_format(Some(FormatOptions::new(Some(ImageFormat::Png)).unwrap()));
    let result = resolve_encoder(&options, "out.webp", "input.jpg", &CodecResolver::default());
    match result {
        Err(e) => assert!(
            e.to_string().contains("does not match"),
            "Expected 'does not match' error, got: {}",
            e.to_string()
        ),
        Ok(_) => panic!("Expected error for format/extension mismatch"),
    }
}

#[test]
fn resolve_encoder_succeeds_when_format_matches_extension() {
    let options = with_format(Some(FormatOptions::new(Some(ImageFormat::WebP)).unwrap()));
    let result = resolve_encoder(&options, "out.webp", "input.jpg", &CodecResolver::default());
    assert!(result.is_ok());
}

#[test]
fn resolve_encoder_falls_back_to_extension_when_no_format() {
    let options = with_format(None);
    let result = resolve_encoder(&options, "out.png", "input.jpg", &CodecResolver::default());
    assert!(result.is_ok());
    assert_eq!(result.unwrap().format(), ImageFormat::Png);
}

#[test]
fn target_format_prefers_options_then_output_then_input() {
    let none = with_format(None);
    let png = with_format(Some(FormatOptions::new(Some(ImageFormat::Png)).unwrap()));
    assert_eq!(target_format(&png, "out.webp", "in.gif"), ImageFormat::Png);
    assert_eq!(target_format(&none, "out.webp", "in.gif"), ImageFormat::WebP);
    assert_eq!(target_format(&none, "out", "in.gif"), ImageFormat::Gif);
    assert_eq!(target_format(&none, "out", "in"), ImageFormat::Jpeg);
}

#[test]
fn missing_encoder_is_reported_with_its_mime_type() {
    let options = with_format(None);
    let err = resolve_encoder(&options, "out.tiff", "in.png", &CodecResolver::default()).unwrap_err();
    assert_eq!(err, PipelineError::NoEncoder(ImageFormat::Tiff));
    assert_eq!(err.to_string(), "[core/pipeline] No encoder registered for format: image/tiff");
    let mut jpeg_only = CodecResolver::new();
    jpeg_only.register_encoder(ImageFormat::Jpeg, EncoderKind::Jpeg);
    assert_eq!(
        resolve_encoder(&options, "out.avif", "in.png", &jpeg_only),
        Err(PipelineError::NoEncoder(ImageFormat::Avif))
    );
}

// ---------------------------------------------------------------- quality

#[test]
fn quality_plan_cases() {
    let resolver = CodecResolver::default();
    let q = |v: Option<f64>| ProcessingOptions {
        quality: Some(QualityOptions { quality: v.map(dec) }),
        ..Default::default()
    };
    assert_eq!(quality_plan(&ProcessingOptions::default(), false, "o.png", "i.png", &resolver), Ok(QualityPlan::Skip));
    assert_eq!(quality_plan(&q(None), false, "o.png", "i.png", &resolver), Ok(QualityPlan::Skip));
    assert_eq!(quality_plan(&q(Some(50.0)), false, "o.png", "i.png", &resolver), Err(PipelineError::ImageNotLoaded));
    assert_eq!(quality_plan(&q(Some(50.0)), true, "o.jpg", "i.png", &resolver), Ok(QualityPlan::Skip));
    assert_eq!(
        quality_plan(&q(Some(50.0)), true, "o.png", "i.png", &resolver),
        Ok(QualityPlan::ReencodeAsJpeg(EncoderKind::Jpeg))
    );
    let mut png_only = CodecResolver::new();
    png_only.register_encoder(ImageFormat::Png, EncoderKind::Png);
    assert_eq!(quality_plan(&q(Some(50.0)), true, "o.png", "i.png", &png_only), Err(PipelineError::NoJpegEncoder));
    assert_eq!(
        PipelineError::NoJpegEncoder.to_string(),
        "[core/quality] No JPEG encoder available for quality optimization"
    );
}

#[test]
fn only_encoders_without_alpha_flatten() {
    assert!(needs_flatten(EncoderKind::Jpeg, true));
    assert!(!needs_flatten(EncoderKind::Jpeg, false));
    assert!(!needs_flatten(EncoderKind::Png, true));
    assert!(!needs_flatten(EncoderKind::WebP, true));
}

// ---------------------------------------------------------------- geometry of the stages

#[test]
fn gravity_coords_scale_the_anchors() {
    let g = Some(Geometry::new(200, 101));
    assert_eq!(gravity_coords(g, Some(GravityOptions::Center)), Ok((100, 51)));
    assert_eq!(gravity_coords(g, Some(GravityOptions::BottomRight)), Ok((200, 101)));
    assert_eq!(gravity_coords(g, Some(GravityOptions::TopLeft)), Ok((0, 0)));
    assert_eq!(gravity_coords(None, Some(GravityOptions::Top)), Err(PipelineError::NoImage));
    assert_eq!(gravity_coords(g, None), Err(PipelineError::NoGravity));
    assert_eq!(PipelineError::NoImage.to_string(), "No image loaded");
    assert_eq!(PipelineError::NoGravity.to_string(), "No gravity option set");
}

#[test]
fn crop_window_needs_an_image_when_enabled() {
    let crop = CropOptions { width: Some(Coord::Px(10)), height: None, offset_x: None, offset_y: None };
    let options = ProcessingOptions { crop: Some(crop), ..Default::default() };
    let err = crop_window(&options, None).unwrap_err();
    assert_eq!(err, PipelineError::ImageCannotBeLoaded(Stage::Crop));
    assert_eq!(err.to_string(), "[core/crop] Image cannot be loaded");
    assert_eq!(
        crop_window(&options, Some(Geometry::new(40, 30))),
        Ok(Some(Area { x: 0, y: 0, width: 10, height: 30 }))
    );
    let centred = ProcessingOptions { gravity: Some(GravityOptions::Center), ..options };
    assert_eq!(
        crop_window(&centred, Some(Geometry::new(40, 30))),
        Ok(Some(Area { x: 15, y: 0, width: 10, height: 30 }))
    );
    let empty = CropOptions { width: None, height: None, offset_x: None, offset_y: None };
    let disabled = ProcessingOptions { crop: Some(empty), ..Default::default() };
    assert_eq!(crop_window(&disabled, None), Ok(None));
}

#[test]
fn resize_plan_scales_sizes_by_ratio() {
    let options = ProcessingOptions {
        resize: Some(ResizeOptions::new(Some(120), None).dpr(dec(2.0))),
        ..Default::default()
    };
    assert_eq!(
        resize_plan(&options, Some(Geometry::new(300, 200))),
        Ok(Some(ResizePlan {
            width: 240,
            height: 400,
            strategy: wiot::options::AspectRatioStrategy::Fit,
            filter: ResizeFilter::Triangle,
        }))
    );
    let err = resize_plan(&options, None).unwrap_err();
    assert_eq!(err.to_string(), "[core/resize] Image cannot be loaded");
    let off = ProcessingOptions { resize: Some(ResizeOptions::default()), ..Default::default() };
    assert_eq!(resize_plan(&off, None), Ok(None));
}

#[test]
fn dpr_rounds_half_away_from_zero() {
    let options = ProcessingOptions {
        resize: Some(ResizeOptions::new(Some(3), Some(5)).dpr(dec(0.5))),
        ..Default::default()
    };
    let plan = resize_plan(&options, Some(Geometry::new(1, 1))).unwrap().unwrap();
    assert_eq!((plan.width, plan.height), (2, 3));
}

// ---------------------------------------------------------------- automatic format

#[test]
fn test_checksum_hex_correctness() {
    let data = b"hello world";
    let mut hasher = Sha256::new();
    hasher.update(data);
    let expected = format!("{:x}", hasher.finalize());
    let actual = checksum_hex(data);
    assert_eq!(actual, expected);
}

#[test]
fn checksum_of_empty_input() {
    assert_eq!(
        checksum_hex(b""),
        "e3b0c44298fc1c149afbf4c8996fb92427ae41e4649b934ca495991b7852b855"
    );
    assert_eq!(hex_lower(&[0x00, 0x0f, 0xa0, 0xff]), "000fa0ff");
}

#[test]
fn auto_file_name_uses_usual_extension() {
    assert_eq!(auto_output_file_name("abc123", ImageFormat::Jpeg), "abc123.jpg");
    assert_eq!(auto_output_file_name("def456", ImageFormat::Png), "def456.png");
    assert_eq!(auto_output_file_name("xyz789", ImageFormat::Tiff), "xyz789.tiff");
}

#[test]
fn auto_candidates_follow_transparency() {
    assert_eq!(
        auto_format_candidates(true),
        vec![ImageFormat::Avif, ImageFormat::WebP, ImageFormat::Png]
    );
    assert_eq!(
        auto_format_candidates(false),
        vec![ImageFormat::Avif, ImageFormat::WebP, ImageFormat::Jpeg]
    );
    let all = default_auto_formats();
    assert_eq!(all.len(), 4);
    assert!(!all[2].supports_transparency);
}

#[test]
fn test_find_smallest_encoded_returns_smallest() {
    let encoded = vec![
        (vec![1u8; 10], ImageFormat::Png),
        (vec![2u8; 5], ImageFormat::Jpeg),
        (vec![3u8; 20], ImageFormat::Gif),
    ];
    let (bytes, format) = find_smallest_encoded(encoded);
    assert_eq!(bytes, Some(vec![2u8; 5]));
    assert_eq!(format, Some(ImageFormat::Jpeg));
}

#[test]
fn test_find_smallest_encoded_empty() {
    let (bytes, format) = find_smallest_encoded(Vec::new());
    assert!(bytes.is_none());
    assert!(format.is_none());
}

#[test]
fn smallest_encoding_keeps_the_first_of_equals() {
    let encoded = vec![
        (vec![0u8; 4], ImageFormat::Avif),
        (vec![1u8; 3], ImageFormat::WebP),
        (vec![2u8; 3], ImageFormat::Png),
    ];
    let (bytes, format) = find_smallest_encoded(encoded);
    assert_eq!(bytes, Some(vec![1u8; 3]));
    assert_eq!(format, Some(ImageFormat::WebP));
}

#[test]
fn resolved_encoder_writes_the_target_format() {
    let resolver = CodecResolver::default();
    let none = with_format(None);
    for (output, input) in [("a.jpg", "b.png"), ("a.png", "b"), ("a", "b.webp"), ("a", "b"), ("a.JPEG", "b.gif")] {
        let target = target_format(&none, output, input);
        let encoder = resolve_encoder(&none, output, input, &resolver).unwrap();
        assert_eq!(encoder.format(), target, "{output} {input}");
    }
    let png = with_format(Some(FormatOptions::new(Some(ImageFormat::Png)).unwrap()));
    assert_eq!(resolve_encoder(&png, "out", "in.jpg", &resolver).unwrap().format(), ImageFormat::Png);
    assert_eq!(resolve_encoder(&png, "out.PNG", "in.jpg", &resolver).unwrap().format(), ImageFormat::Png);
}

#[test]
fn default_registry_encodes_every_candidate() {
    let resolver = CodecResolver::default();
    for alpha in [false, true] {
        for f in auto_format_candidates(alpha) {
            assert_eq!(wiot::pipeline::resolve_encoder_by_format(&resolver, f).unwrap().format(), f);
        }
    }
    for name in ["avif", "gif", "webp", "png", "jpg"] {
        let options = with_format(Some(FormatOptions::new(ImageFormat::from_extension(name)).unwrap()));
        assert!(resolve_encoder(&options, "out", "in", &resolver).is_ok(), "{name}");
    }
}

#[test]
fn decisions_on_known_formats() {
    let resolver = CodecResolver::default();
    let none = with_format(None);
    let webp = with_format(Some(FormatOptions::new(Some(ImageFormat::WebP)).unwrap()));
    assert_eq!(pick_target_format(&none, Some(ImageFormat::Gif), Some(ImageFormat::Png)), ImageFormat::Gif);
    assert_eq!(pick_target_format(&none, None, Some(ImageFormat::Png)), ImageFormat::Png);
    assert_eq!(pick_target_format(&none, None, None), ImageFormat::Jpeg);
    assert_eq!(pick_target_format(&webp, Some(ImageFormat::Gif), None), ImageFormat::WebP);
    assert_eq!(
        resolve_encoder_for_formats(&webp, Some(ImageFormat::Gif), None, &resolver),
        Err(PipelineError::FormatMismatch)
    );
    assert_eq!(resolve_encoder_for_formats(&webp, None, None, &resolver), Ok(EncoderKind::WebP));
    let q = ProcessingOptions { quality: Some(QualityOptions { quality: Some(dec(50.0)) }), ..Default::default() };
    assert_eq!(
        quality_plan_for_formats(&q, true, Some(ImageFormat::Gif), None, &resolver),
        Ok(QualityPlan::ReencodeAsJpeg(EncoderKind::Jpeg))
    );
    assert_eq!(quality_plan_for_formats(&q, true, Some(ImageFormat::Avif), None, &resolver), Ok(QualityPlan::Skip));
}

#[test]
fn test_build_output_path_regular_file() {
    let result = wiot::auto_format::auto_output_path("foo/bar/image.png", false, '/', "abc123", ImageFormat::Jpeg);
    let expected = std::path::Path::new("foo/bar").join("abc123.jpg");
    assert_eq!(result, expected.to_string_lossy());
}

#[test]
fn test_build_output_path_directory() {
    let result = wiot::auto_format::auto_output_path("foo/bar/", false, '/', "def456", ImageFormat::Png);
    let expected = std::path::Path::new("foo/bar/").join("def456.png");
    assert_eq!(result, expected.to_string_lossy());
    let existing = wiot::auto_format::auto_output_path("foo/bar", true, '/', "def456", ImageFormat::Png);
    assert_eq!(existing, std::path::Path::new("foo/bar").join("def456.png").to_string_lossy());
}

#[test]
fn test_build_output_path_no_parent() {
    let result = wiot::auto_format::auto_output_path("image", false, '/', "xyz789", ImageFormat::Gif);
    let expected = std::path::Path::new("").join("xyz789.gif");
    assert_eq!(result, expected.to_string_lossy());
    assert_eq!(wiot::auto_format::auto_output_path("", false, '/', "x", ImageFormat::Gif), "x.gif");
}
