use exifrename::filter::{has_image_extension, is_image_extension};
use std::path::PathBuf;

#[test]
fn image_extensions_are_jpg_jpeg_and_png() {
    assert!(is_image_extension("jpg"));
    assert!(is_image_extension("jpeg"));
    assert!(is_image_extension("png"));
    assert!(!is_image_extension(""));
    assert!(!is_image_extension("JPG"));
    assert!(!is_image_extension("jpg "));
    assert!(!is_image_extension("jp"));
    assert!(!is_image_extension("gif"));
    assert!(!is_image_extension("tiff"));
}

#[test]
fn extensions_are_compared_in_lower_case() {
    for path in ["a.jpg", "a.JPG", "a.Jpg", "dir.d/b.jpeg", "c.JPEG", "d.png", "e.PnG", "x.y.png"] {
        assert!(has_image_extension(&PathBuf::from(path)), "{}", path);
    }
}

#[test]
fn other_files_are_no_images() {
    for path in ["a", "a.gif", "a.jpg.txt", "jpg", ".jpg", "dir.jpg/readme", "a.jpg~", "", "a.jpe"] {
        assert!(!has_image_extension(&PathBuf::from(path)), "{}", path);
    }
}
