use smallpict_rust::mime::{mime_to_extension, string_to_image_format, ImageFormat};

#[test]
fn extensions_for_known_types() {
    assert_eq!(mime_to_extension("image/jpeg"), ".jpg");
    assert_eq!(mime_to_extension("image/jpg"), ".jpg");
    assert_eq!(mime_to_extension("image/png"), ".png");
    assert_eq!(mime_to_extension("image/webp"), ".webp");
    assert_eq!(mime_to_extension("image/avif"), ".avif");
    assert_eq!(mime_to_extension("image/gif"), ".gif");
    assert_eq!(mime_to_extension("image/svg+xml"), ".svg");
}

#[test]
fn extension_ignores_case_and_defaults_to_jpg() {
    assert_eq!(mime_to_extension("IMAGE/PNG"), ".png");
    assert_eq!(mime_to_extension("Image/Webp"), mime_to_extension("image/webp"));
    assert_eq!(mime_to_extension("application/pdf"), ".jpg");
    assert_eq!(mime_to_extension(""), ".jpg");
    assert_eq!(mime_to_extension("image/png "), ".jpg");
}

#[test]
fn formats_by_name() {
    assert_eq!(string_to_image_format("webp"), ImageFormat::Webp);
    assert_eq!(string_to_image_format("AVIF"), ImageFormat::Avif);
    assert_eq!(string_to_image_format("Png"), ImageFormat::Png);
    assert_eq!(string_to_image_format("jpeg"), ImageFormat::Jpeg);
    assert_eq!(string_to_image_format("JPG"), ImageFormat::Jpeg);
    assert_eq!(string_to_image_format("auto"), ImageFormat::Auto);
    assert_eq!(string_to_image_format("gif"), ImageFormat::Auto);
    assert_eq!(string_to_image_format(""), ImageFormat::Auto);
}
