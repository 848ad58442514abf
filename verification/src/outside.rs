//! What this library takes on trust: the behaviour of items of `std` and of
//! the `exif` crate that the verifier cannot read. Every contract in this
//! file is believed, not proved.

use crate::metadata::{Context, DateTime, ExifField, ExifFieldView, Tag};
use std::path::PathBuf;
use vstd::prelude::*;
use vstd::utf8::{decode_utf8, valid_utf8};

verus! {

/// `std::path::PathBuf`, an owned path whose inside the verifier does not see.
#[verifier::external_type_specification]
#[verifier::external_body]
pub struct ExPathBuf(PathBuf);

/// The texts of an optional value that may itself lack a text.
pub open spec fn nested_text(value: Option<Option<String>>) -> Option<Option<Seq<char>>> {
    match value {
        Some(Some(text)) => Some(Some(text@)),
        Some(None) => Some(None),
        None => None,
    }
}

/// What `Path::extension` finds in `path`: `None` where the file name has no
/// extension, `Some(None)` where it has one that is not valid Unicode, and
/// otherwise the extension, without its dot.
pub uninterp spec fn path_extension(path: PathBuf) -> Option<Option<Seq<char>>>;

/// What `Path::file_stem` finds in `path`: `None` where the path has no file
/// name, `Some(None)` where the stem is not valid Unicode, and otherwise the
/// stem.
pub uninterp spec fn path_file_stem(path: PathBuf) -> Option<Option<Seq<char>>>;

/// Calls `Path::extension` and hands the result out as text, which
/// `OsStr::to_str` makes of it. The contract claims only that the result is a
/// function of the path.
#[verifier::external_body]
pub(crate) fn extension_of(path: &PathBuf) -> (r: Option<Option<String>>)
    ensures
        nested_text(r) == path_extension(*path),
{
    path.extension().map(|found| found.to_str().map(|text| text.to_string()))
}

/// Calls `Path::file_stem` and hands the result out as text, which
/// `OsStr::to_str` makes of it. The contract claims only that the result is a
/// function of the path.
#[verifier::external_body]
pub(crate) fn file_stem_of(path: &PathBuf) -> (r: Option<Option<String>>)
    ensures
        nested_text(r) == path_file_stem(*path),
{
    path.file_stem().map(|found| found.to_str().map(|text| text.to_string()))
}

/// What `Path::parent` finds in `path`: the path without its last component,
/// or `None` where the path ends in a root or a prefix or is empty.
pub uninterp spec fn path_parent(path: PathBuf) -> Option<PathBuf>;

/// Calls `Path::parent` and hands the result out as an owned path. The
/// contract claims only that the result is a function of the path.
#[verifier::external_body]
pub(crate) fn parent_of(path: &PathBuf) -> (r: Option<PathBuf>)
    ensures
        r == path_parent(*path),
{
    path.parent().map(|dir| dir.to_path_buf())
}

/// The clone of a `PathBuf` is the same path.
pub assume_specification[ <PathBuf as Clone>::clone ](path: &PathBuf) -> (r: PathBuf)
    ensures
        r == *path,
;

/// `exif::Exif`, the Exif attributes that were parsed from one image.
#[verifier::external_type_specification]
#[verifier::external_body]
pub struct ExExif(exif::Exif);

/// `exif::Error`, the reason why Exif data could not be parsed.
#[verifier::external_type_specification]
#[verifier::external_body]
pub struct ExExifError(exif::Error);

/// The fields that `exif` holds for the primary image, by tag: of each field
/// the components of its value where that is of the ASCII type, and the text
/// in which the `exif` crate displays the value.
pub uninterp spec fn exif_primary_fields(exif: exif::Exif) -> Map<Tag, ExifFieldView>;

/// What `exif::DateTime::from_ascii` reads from `data`, or `None` where it
/// refuses them.
pub uninterp spec fn ascii_datetime(data: Seq<u8>) -> Option<DateTime>;

/// Looks `tag` up with `Exif::get_field` among the fields of the primary
/// image, and hands the field out with the text that `Field::display_value`
/// gives for it. The contract claims that the field is found where the
/// attributes hold the tag, and that what is handed out is a function of the
/// attributes and the tag.
#[verifier::external_body]
pub(crate) fn primary_field(exif: &exif::Exif, tag: Tag) -> (r: Option<ExifField>)
    ensures
        match r {
            Some(field) => exif_primary_fields(*exif).contains_key(tag) && field@
                == exif_primary_fields(*exif)[tag],
            None => !exif_primary_fields(*exif).contains_key(tag),
        },
{
    let context = match tag.0 {
        Context::Tiff => exif::Context::Tiff,
        Context::Exif => exif::Context::Exif,
        Context::Gps => exif::Context::Gps,
        Context::Interop => exif::Context::Interop,
    };
    exif.get_field(exif::Tag(context, tag.1), exif::In::PRIMARY).map(|field| ExifField {
        ascii: match field.value {
            exif::Value::Ascii(ref parts) => Some(parts.clone()),
            _ => None,
        },
        display: field.display_value().to_string(),
    })
}

/// Calls `exif::DateTime::from_ascii`. The contract claims only that the
/// result is a function of the bytes.
#[verifier::external_body]
pub(crate) fn datetime_from_ascii(data: &Vec<u8>) -> (r: Option<DateTime>)
    ensures
        r == ascii_datetime(data@),
{
    match exif::DateTime::from_ascii(data) {
        Ok(parsed) => Some(DateTime {
            year: parsed.year,
            month: parsed.month,
            day: parsed.day,
            hour: parsed.hour,
            minute: parsed.minute,
            second: parsed.second,
            nanosecond: parsed.nanosecond,
            offset: parsed.offset,
        }),
        Err(_) => None,
    }
}

/// Calls `std::str::from_utf8`: the text that the bytes encode, where they
/// are valid UTF-8, and `None` where they are not.
#[verifier::external_body]
pub(crate) fn text_from_utf8(bytes: &Vec<u8>) -> (r: Option<String>)
    ensures
        match r {
            Some(text) => valid_utf8(bytes@) && text@ == decode_utf8(bytes@),
            None => !valid_utf8(bytes@),
        },
{
    match std::str::from_utf8(bytes) {
        Ok(text) => Some(text.to_string()),
        Err(_) => None,
    }
}

/// The Exif attributes that `exif::Reader::read_from_container` finds in the
/// bytes of an image file, or `None` where it reports an error.
pub uninterp spec fn container_exif(data: Seq<u8>) -> Option<exif::Exif>;

/// Calls `exif::Reader::read_from_container` on the bytes of an image file,
/// held in memory. The contract claims only that success and the attributes
/// are a function of the bytes; of the error it claims nothing.
#[verifier::external_body]
pub(crate) fn read_exif(data: Vec<u8>) -> (r: Result<exif::Exif, exif::Error>)
    ensures
        match r {
            Ok(exif) => container_exif(data@) == Some(exif),
            Err(_) => container_exif(data@) is None,
        },
{
    exif::Reader::new().read_from_container(&mut std::io::Cursor::new(data))
}

/// The error of the `exif` crate in the words of its `Debug` form. The
/// contract claims nothing of the text.
#[verifier::external_body]
pub(crate) fn exif_error_text(error: &exif::Error) -> String {
    format!("{:?}", error)
}

/// `text` in lower case, as `str::to_lowercase` gives it.
pub uninterp spec fn lowercase(text: Seq<char>) -> Seq<char>;

/// Calls `str::to_lowercase`. The contract claims only that the result is a
/// function of the text.
#[verifier::external_body]
pub(crate) fn to_lowercase(text: &str) -> (r: String)
    ensures
        r@ == lowercase(text@),
{
    text.to_lowercase()
}

/// `String::push` appends the given character to the end of the string.
pub assume_specification[ String::push ](s: &mut String, ch: char)
    ensures
        final(s)@ == old(s)@.push(ch),
;

} // verus!
