use wiot::adapters::{AdapterResolver, FileAdapter, HttpDestination, HttpFileAdapterFactory, LocalFileAdapter};

#[test]
fn test_local_resolver() {
    let io = vec![
        "file:///path/to/image.jpg",
        "file://path/to/image.jpg",
        "/path/to/image.jpg",
        "image.jpg",
        "./image.jpg",
        ".image.jpg",
        "../..image.jpg",
    ];

    for path in io {
        let source = AdapterResolver::resolve_source(path);
        assert!(source.is_ok(), "Failed to resolve source for path: {}", path);
        assert_eq!(source.unwrap(), FileAdapter::Local, "Source is not of type LocalFileAdapter");

        let destination = AdapterResolver::resolve_destination(path);
        assert!(destination.is_ok(), "Failed to resolve destination for path: {}", path);
        assert_eq!(destination.unwrap(), FileAdapter::Local, "Destination is not of type LocalFileAdapter");
    }
}

#[test]
fn test_resolve_source_fails_with_unknown_scheme() {
    let result = AdapterResolver::resolve_source("unknown://path/to/file.jpg");
    assert!(result.is_err(), "Expected error but got Ok");

    let message = result.err().unwrap().to_string();
    assert!(
        message.contains("No suitable adapter found for source"),
        "Unexpected error message: {message}"
    );
}

#[test]
fn test_resolve_destination_fails_with_unknown_scheme() {
    let result = AdapterResolver::resolve_destination("strange://file.png");
    assert!(result.is_err(), "Expected error but got Ok");

    let message = result.err().unwrap().to_string();
    assert!(
        message.contains("No suitable adapter found for destination"),
        "Unexpected error message: {message}"
    );
}

#[test]
fn http_uris_go_to_the_http_adapter() {
    for uri in ["http://host/a.png", "https://host/b.jpg"] {
        assert_eq!(AdapterResolver::resolve_source(uri).unwrap(), FileAdapter::Http);
        assert_eq!(AdapterResolver::resolve_destination(uri).unwrap(), FileAdapter::Http);
    }
    for uri in ["ftp://x", "s3://bucket/key.jpg", "ws://h"] {
        assert!(AdapterResolver::resolve_source(uri).is_err());
    }
}

#[test]
fn factories_refuse_what_they_cannot_handle() {
    let local = LocalFileAdapter;
    assert!(local.can_handle("file://path/to/image.png"));
    assert!(local.can_handle("C:\\Windows\\img.gif"));
    assert!(!local.can_handle("https://h/x.png"));
    assert_eq!(
        local.create_source("https://h/x.png").unwrap_err().to_string(),
        "[LocalFileAdapter] Cannot handle URI scheme: https://h/x.png"
    );
    assert_eq!(local.create_destination("img.png").unwrap(), FileAdapter::Local);

    let http = HttpFileAdapterFactory;
    assert!(http.can_handle("https://h/x.png"));
    assert!(!http.can_handle("HTTP://h/x.png"));
    assert_eq!(
        http.create_destination("image.png").unwrap_err().to_string(),
        "HttpAdapter cannot handle URI: image.png"
    );
    assert_eq!(http.create_source("http://h/x").unwrap(), FileAdapter::Http);
}

#[test]
fn http_destination_keeps_the_last_write() {
    let mut d = HttpDestination::new();
    assert!(d.contents().is_empty());
    d.write("https://h/a", &[1, 2, 3]);
    assert_eq!(d.contents(), &vec![1u8, 2, 3]);
    d.write("https://h/a", &[9]);
    assert_eq!(d.contents(), &vec![9u8]);
    d.write("https://h/a", &[]);
    assert!(d.contents().is_empty());
}

#[test]
fn decoding_reports_size_and_alpha() {
    let img = image::RgbaImage::from_pixel(3, 2, image::Rgba([1, 2, 3, 4]));
    let mut png = Vec::new();
    image::DynamicImage::ImageRgba8(img)
        .write_to(&mut std::io::Cursor::new(&mut png), image::ImageFormat::Png)
        .unwrap();
    let d = wiot::adapters::decode_image(&png).ok().unwrap();
    assert_eq!((d.width, d.height, d.has_alpha), (3, 2, true));
    assert!(wiot::adapters::decode_image(b"not an image").is_err());
}
