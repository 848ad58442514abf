//! Which files of a directory are taken for images.

use crate::outside::{extension_of, lowercase, path_extension, to_lowercase};
use std::path::PathBuf;
use vstd::prelude::*;

verus! {

/// Whether `lower` is one of the extensions of image files, which are given
/// in lower case.
pub open spec fn is_image_extension_text(lower: Seq<char>) -> bool {
    lower == "jpg"@ || lower == "jpeg"@ || lower == "png"@
}

/// Whether `lower` is one of the extensions of image files, which are given
/// in lower case.
pub fn is_image_extension(lower: &str) -> (r: bool)
    ensures
        r == is_image_extension_text(lower@),
{
    let found = lower.to_owned();
    found == "jpg".to_owned() || found == "jpeg".to_owned() || found == "png".to_owned()
}

/// Whether a file with the given extension is taken for an image: its
/// extension is valid Unicode and, in lower case, that of an image file.
pub open spec fn is_image(extension: Option<Option<Seq<char>>>) -> bool {
    match extension {
        Some(Some(text)) => is_image_extension_text(lowercase(text)),
        _ => false,
    }
}

/// Whether the file at `path` is taken for an image.
pub fn has_image_extension(path: &PathBuf) -> (r: bool)
    ensures
        r == is_image(path_extension(*path)),
{
    match extension_of(path) {
        Some(Some(text)) => {
            let lower = to_lowercase(text.as_str());
            is_image_extension(lower.as_str())
        },
        _ => false,
    }
}

} // verus!
