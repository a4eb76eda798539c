use aster::image::{
    build_image_result, estimate_image_tokens, image_compression_config, is_supported_image_format,
    validate_image_file, MAX_IMAGE_TOKENS,
};

#[test]
fn supported_formats() {
    for e in ["png", "PNG", ".jpg", "jpeg", "gif", "webp"] {
        assert!(is_supported_image_format(e), "{}", e);
    }
    for e in ["bmp", "svg", "", "tiff"] {
        assert!(!is_supported_image_format(e), "{}", e);
    }
}

#[test]
fn token_estimate_rounds_up() {
    assert_eq!(estimate_image_tokens(""), 0);
    assert_eq!(estimate_image_tokens("abcdefgh"), 1);
    assert_eq!(estimate_image_tokens("abcdefghi"), 2);
    assert_eq!(MAX_IMAGE_TOKENS, 25000);
    let c = image_compression_config();
    assert!(c.max_width > 0 && c.max_height > 0 && c.quality > 0);
}

#[test]
fn image_results() {
    assert_eq!(build_image_result("/a/x.png", b"", 0, None).unwrap_err(), "Image file is empty: /a/x.png");
    let r = build_image_result("/a/x.JPG", b"hi", 2, None).unwrap();
    assert_eq!(r.base64, "aGk=");
    assert_eq!(r.mime_type, "image/jpg");
    assert_eq!(r.original_size, 2);
    let r = build_image_result("/a/noext", b"hi", 2, Some("image/gif")).unwrap();
    assert_eq!(r.mime_type, "image/gif");
    let r = build_image_result("/a/noext", b"hi", 2, None).unwrap();
    assert_eq!(r.mime_type, "image/png");
}

#[test]
fn image_file_checks() {
    assert_eq!(validate_image_file("/a/x.png", false, 10).unwrap_err(), "File does not exist");
    assert_eq!(validate_image_file("/a/x.png", true, 0).unwrap_err(), "Image file is empty");
    assert!(validate_image_file("/a/x.png", true, 10).is_ok());
    assert!(validate_image_file("/a/x.bmp", true, 10).unwrap_err().starts_with("Unsupported image format: bmp"));
}
