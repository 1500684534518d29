use ascii_art::{edited_name, extension_or_fallback, output_extension};

#[test]
fn known_extensions_are_kept() {
    assert_eq!(output_extension(Some("png")), "png");
    assert_eq!(output_extension(Some("PNG")), "PNG");
    assert_eq!(output_extension(Some("tiff")), "tiff");
}

#[test]
fn unknown_extensions_fall_back_to_jpg() {
    assert_eq!(output_extension(Some("txt")), "jpg");
    assert_eq!(output_extension(Some("")), "jpg");
    assert_eq!(output_extension(None), "jpg");
}

#[test]
fn extension_choice_follows_the_flag() {
    assert_eq!(extension_or_fallback(Some("xyz"), true), "xyz");
    assert_eq!(extension_or_fallback(Some("png"), false), "jpg");
    assert_eq!(extension_or_fallback(None, true), "jpg");
}

#[test]
fn edited_names() {
    assert_eq!(edited_name("cat", Some("png")), "cat_edited.png");
    assert_eq!(edited_name("cat", None), "cat_edited.jpg");
    assert_eq!(edited_name("", Some("gif")), "_edited.gif");
}
