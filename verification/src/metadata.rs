//! The metadata of one image and the fields that a template may name.

use crate::outside::{
    ascii_datetime, datetime_from_ascii, exif_primary_fields, file_stem_of, path_file_stem,
    primary_field, text_from_utf8,
};
use crate::template::{option_text, sanitize, sanitized};
use std::path::PathBuf;
use vstd::prelude::*;
use vstd::utf8::{decode_utf8, valid_utf8};

verus! {

/// How the number of a tag is to be read.
#[derive(Clone, Copy, Debug, PartialEq, Eq, Structural)]
pub enum Context {
    /// Attributes of the TIFF standard.
    Tiff,
    /// Exif attributes.
    Exif,
    /// GPS attributes.
    Gps,
    /// Interoperability attributes.
    Interop,
}

/// The tag of an Exif field: its context and its number.
#[derive(Clone, Copy, Debug, PartialEq, Eq, Structural)]
pub struct Tag(pub Context, pub u16);

/// Date and time as an Exif field holds them. No part is checked against
/// the calendar or the clock.
#[derive(Clone, Copy, Debug, PartialEq, Eq, Structural)]
pub struct DateTime {
    pub year: u16,
    pub month: u8,
    pub day: u8,
    pub hour: u8,
    pub minute: u8,
    pub second: u8,
    /// The part of the second, in nanoseconds.
    pub nanosecond: Option<u32>,
    /// The offset of the time zone, in minutes.
    pub offset: Option<i16>,
}

/// What is read of one Exif field.
#[derive(Clone, Debug, PartialEq, Eq)]
pub struct ExifField {
    /// The components of the value, where it is of the ASCII type.
    pub ascii: Option<Vec<Vec<u8>>>,
    /// The value as it is displayed.
    pub display: String,
}

/// `ExifField` with its texts as sequences.
pub struct ExifFieldView {
    pub ascii: Option<Seq<Seq<u8>>>,
    pub display: Seq<char>,
}

impl View for ExifField {
    type V = ExifFieldView;

    open spec fn view(&self) -> ExifFieldView {
        ExifFieldView {
            ascii: match self.ascii {
                Some(parts) => Some(parts.deep_view()),
                None => None,
            },
            display: self.display@,
        }
    }
}

/// The metadata of one image.
pub struct ImageMetadata {
    /// The Exif attributes of the image.
    pub exif: exif::Exif,
    /// When the picture was taken.
    pub datetime: Option<DateTime>,
    /// Where the image lies.
    pub path: PathBuf,
}

/// The field that `exif` holds under `tag` for the primary image.
pub open spec fn exif_field(exif: exif::Exif, tag: Tag) -> Option<ExifFieldView> {
    if exif_primary_fields(exif).contains_key(tag) {
        Some(exif_primary_fields(exif)[tag])
    } else {
        None
    }
}

/// The text of a field for use in a name. An ASCII value gives its first
/// component, decoded as UTF-8, and nothing where that is no UTF-8; every
/// other value gives the text in which it is displayed. Each `/` in the text
/// is replaced by `_`.
pub open spec fn field_text(field: Option<ExifFieldView>) -> Option<Seq<char>> {
    match field {
        None => None,
        Some(found) => match found.ascii {
            Some(parts) if parts.len() > 0 => if valid_utf8(parts[0]) {
                Some(sanitized(decode_utf8(parts[0])))
            } else {
                None
            },
            _ => Some(sanitized(found.display)),
        },
    }
}

/// The text of `field` for use in a name.
pub fn exif_field_text(field: Option<ExifField>) -> (r: Option<String>)
    ensures
        option_text(r) == field_text(
            match field {
                Some(found) => Some(found@),
                None => None,
            },
        ),
{
    match field {
        None => None,
        Some(found) => {
            let raw = match &found.ascii {
                Some(parts) if parts.len() > 0 => {
                    proof {
                        assert(parts.deep_view()[0] == parts[0]@);
                    }
                    text_from_utf8(&parts[0])
                },
                _ => Some(found.display),
            };
            match raw {
                Some(text) => Some(sanitize(text.as_str())),
                None => None,
            }
        },
    }
}

/// The text of the field `tag` of the image, for use in a name.
pub fn get_exif_field(im: &ImageMetadata, tag: Tag) -> (r: Option<String>)
    ensures
        option_text(r) == field_text(exif_field(im.exif, tag)),
{
    exif_field_text(primary_field(&im.exif, tag))
}

/// The file name of a path without its extension, where the path has a file
/// name and the stem is valid Unicode.
pub open spec fn stem_text(stem: Option<Option<Seq<char>>>) -> Option<Seq<char>> {
    match stem {
        Some(Some(text)) => Some(text),
        _ => None,
    }
}

/// The file name of the image without its extension.
pub fn get_original_filename(im: &ImageMetadata) -> (r: Option<String>)
    ensures
        option_text(r) == stem_text(path_file_stem(im.path)),
{
    match file_stem_of(&im.path) {
        Some(Some(text)) => Some(text),
        _ => None,
    }
}

/// What `cb` makes of the date and time of the image, where the image has
/// them.
pub fn get_datetime_field<F: Fn(&DateTime) -> String>(im: &ImageMetadata, cb: F) -> (r: Option<
    String,
>)
    requires
        im.datetime matches Some(datetime) ==> call_requires(cb, (&datetime,)),
    ensures
        r is Some <==> im.datetime is Some,
        im.datetime matches Some(datetime) ==> call_ensures(cb, (&datetime,), r->Some_0),
{
    match &im.datetime {
        Some(datetime) => Some(cb(datetime)),
        None => None,
    }
}

/// The tag of the field that says when the picture was taken.
pub open spec fn date_time_original() -> Tag {
    Tag(Context::Exif, 0x9003)
}

/// The date and time that a field holds: those that the first component of
/// an ASCII value spells out.
pub open spec fn field_datetime(field: Option<ExifFieldView>) -> Option<DateTime> {
    match field {
        Some(found) => match found.ascii {
            Some(parts) if parts.len() > 0 => ascii_datetime(parts[0]),
            _ => None,
        },
        None => None,
    }
}

/// The date and time that `field` holds.
pub fn datetime_of_field(field: Option<ExifField>) -> (r: Option<DateTime>)
    ensures
        r == field_datetime(
            match field {
                Some(found) => Some(found@),
                None => None,
            },
        ),
{
    match field {
        Some(found) => match &found.ascii {
            Some(parts) if parts.len() > 0 => {
                proof {
                    assert(parts.deep_view()[0] == parts[0]@);
                }
                datetime_from_ascii(&parts[0])
            },
            _ => None,
        },
        None => None,
    }
}

/// When the picture was taken, as its Exif attributes say.
pub fn get_datetime(exif: &exif::Exif) -> (r: Option<DateTime>)
    ensures
        r == field_datetime(exif_field(*exif, date_time_original())),
{
    datetime_of_field(primary_field(exif, Tag(Context::Exif, 0x9003)))
}

} // verus!
