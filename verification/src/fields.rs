//! The fields that the template of a run may name, and how each is read
//! from the metadata of an image.

use crate::metadata::{
    exif_field, field_text, get_datetime_field, get_exif_field, get_original_filename, stem_text,
    Context, DateTime, ImageMetadata, Tag,
};
use crate::outside::path_file_stem;
use crate::template::laws::{lemma_absent_name_is_not_found, lemma_first_match_is_found};
use crate::template::{find_field, Extractor, FieldDescriptor, FieldRegistry};
use crate::util::{decimal_text, push_decimal, push_zero_padded, zero_padded};
use vstd::prelude::*;

verus! {

/// A field of an image.
#[derive(Clone, Copy, Debug, PartialEq, Eq, Structural)]
pub enum ImageField {
    /// The year in which the picture was taken.
    Year,
    /// The last two digits of the year.
    Year2,
    Month,
    Day,
    Hour,
    Minute,
    Second,
    /// The F-number.
    FStop,
    /// The sensitivity of the sensor.
    Iso,
    /// The exposure time.
    ShutterSpeed,
    CameraMake,
    CameraModel,
    CameraSerial,
    LensMake,
    LensModel,
    LensSerial,
    FocalLength,
    /// The focal length that gives the same picture on 35 mm film.
    FocalLength35,
    /// The name of the file without its extension.
    Filename,
}

/// The year, in decimal notation.
pub fn year(datetime: &DateTime) -> (r: String)
    ensures
        r@ == decimal_text(datetime.year as nat),
{
    let mut text = String::new();
    push_decimal(&mut text, datetime.year as usize);
    proof {
        assert(Seq::<char>::empty() + decimal_text(datetime.year as nat) =~= decimal_text(
            datetime.year as nat,
        ));
    }
    text
}

/// The year within its century, in decimal notation.
pub fn year2(datetime: &DateTime) -> (r: String)
    ensures
        r@ == decimal_text((datetime.year % 100) as nat),
{
    let mut text = String::new();
    push_decimal(&mut text, (datetime.year % 100) as usize);
    proof {
        assert(Seq::<char>::empty() + decimal_text((datetime.year % 100) as nat) =~= decimal_text(
            (datetime.year % 100) as nat,
        ));
    }
    text
}

/// `value` with two digits at least.
fn two_digits(value: u8) -> (r: String)
    ensures
        r@ == zero_padded(value as nat, 2),
{
    let mut text = String::new();
    push_zero_padded(&mut text, value as usize, 2);
    proof {
        assert(Seq::<char>::empty() + zero_padded(value as nat, 2) =~= zero_padded(
            value as nat,
            2,
        ));
    }
    text
}

/// The month, with two digits at least.
pub fn month(datetime: &DateTime) -> (r: String)
    ensures
        r@ == zero_padded(datetime.month as nat, 2),
{
    two_digits(datetime.month)
}

/// The day of the month, with two digits at least.
pub fn day(datetime: &DateTime) -> (r: String)
    ensures
        r@ == zero_padded(datetime.day as nat, 2),
{
    two_digits(datetime.day)
}

/// The hour, with two digits at least.
pub fn hour(datetime: &DateTime) -> (r: String)
    ensures
        r@ == zero_padded(datetime.hour as nat, 2),
{
    two_digits(datetime.hour)
}

/// The minute, with two digits at least.
pub fn minute(datetime: &DateTime) -> (r: String)
    ensures
        r@ == zero_padded(datetime.minute as nat, 2),
{
    two_digits(datetime.minute)
}

/// The second, with two digits at least.
pub fn second(datetime: &DateTime) -> (r: String)
    ensures
        r@ == zero_padded(datetime.second as nat, 2),
{
    two_digits(datetime.second)
}

impl ImageField {
    /// The name by which a template refers to the field.
    pub open spec fn name_text(self) -> Seq<char> {
        match self {
            ImageField::Year => "year"@,
            ImageField::Year2 => "year2"@,
            ImageField::Month => "month"@,
            ImageField::Day => "day"@,
            ImageField::Hour => "hour"@,
            ImageField::Minute => "minute"@,
            ImageField::Second => "second"@,
            ImageField::FStop => "fstop"@,
            ImageField::Iso => "iso"@,
            ImageField::ShutterSpeed => "shutter_speed"@,
            ImageField::CameraMake => "camera_make"@,
            ImageField::CameraModel => "camera_model"@,
            ImageField::CameraSerial => "camera_serial"@,
            ImageField::LensMake => "lens_make"@,
            ImageField::LensModel => "lens_model"@,
            ImageField::LensSerial => "lens_serial"@,
            ImageField::FocalLength => "focal_length"@,
            ImageField::FocalLength35 => "focal_length_35"@,
            ImageField::Filename => "filename"@,
        }
    }

    /// The name by which a template refers to the field.
    pub fn name(&self) -> (r: String)
        ensures
            r@ == self.name_text(),
    {
        let name = match self {
            ImageField::Year => "year",
            ImageField::Year2 => "year2",
            ImageField::Month => "month",
            ImageField::Day => "day",
            ImageField::Hour => "hour",
            ImageField::Minute => "minute",
            ImageField::Second => "second",
            ImageField::FStop => "fstop",
            ImageField::Iso => "iso",
            ImageField::ShutterSpeed => "shutter_speed",
            ImageField::CameraMake => "camera_make",
            ImageField::CameraModel => "camera_model",
            ImageField::CameraSerial => "camera_serial",
            ImageField::LensMake => "lens_make",
            ImageField::LensModel => "lens_model",
            ImageField::LensSerial => "lens_serial",
            ImageField::FocalLength => "focal_length",
            ImageField::FocalLength35 => "focal_length_35",
            ImageField::Filename => "filename",
        };
        name.to_owned()
    }

    /// The Exif tag that the field is read from, for the fields that are
    /// read from one.
    pub open spec fn tag_of(self) -> Option<Tag> {
        match self {
            ImageField::FStop => Some(Tag(Context::Exif, 0x829d)),
            ImageField::Iso => Some(Tag(Context::Exif, 0x8827)),
            ImageField::ShutterSpeed => Some(Tag(Context::Exif, 0x829a)),
            ImageField::CameraMake => Some(Tag(Context::Tiff, 0x10f)),
            ImageField::CameraModel => Some(Tag(Context::Tiff, 0x110)),
            ImageField::CameraSerial => Some(Tag(Context::Exif, 0xa431)),
            ImageField::LensMake => Some(Tag(Context::Exif, 0xa433)),
            ImageField::LensModel => Some(Tag(Context::Exif, 0xa434)),
            ImageField::LensSerial => Some(Tag(Context::Exif, 0xa435)),
            ImageField::FocalLength => Some(Tag(Context::Exif, 0x920a)),
            ImageField::FocalLength35 => Some(Tag(Context::Exif, 0xa405)),
            _ => None,
        }
    }

    /// The Exif tag that the field is read from.
    pub fn tag(&self) -> (r: Option<Tag>)
        ensures
            r == self.tag_of(),
    {
        match self {
            ImageField::FStop => Some(Tag(Context::Exif, 0x829d)),
            ImageField::Iso => Some(Tag(Context::Exif, 0x8827)),
            ImageField::ShutterSpeed => Some(Tag(Context::Exif, 0x829a)),
            ImageField::CameraMake => Some(Tag(Context::Tiff, 0x10f)),
            ImageField::CameraModel => Some(Tag(Context::Tiff, 0x110)),
            ImageField::CameraSerial => Some(Tag(Context::Exif, 0xa431)),
            ImageField::LensMake => Some(Tag(Context::Exif, 0xa433)),
            ImageField::LensModel => Some(Tag(Context::Exif, 0xa434)),
            ImageField::LensSerial => Some(Tag(Context::Exif, 0xa435)),
            ImageField::FocalLength => Some(Tag(Context::Exif, 0x920a)),
            ImageField::FocalLength35 => Some(Tag(Context::Exif, 0xa405)),
            _ => None,
        }
    }

    /// The text of a field of date and time.
    pub open spec fn datetime_text(self, datetime: DateTime) -> Option<Seq<char>> {
        match self {
            ImageField::Year => Some(decimal_text(datetime.year as nat)),
            ImageField::Year2 => Some(decimal_text((datetime.year % 100) as nat)),
            ImageField::Month => Some(zero_padded(datetime.month as nat, 2)),
            ImageField::Day => Some(zero_padded(datetime.day as nat, 2)),
            ImageField::Hour => Some(zero_padded(datetime.hour as nat, 2)),
            ImageField::Minute => Some(zero_padded(datetime.minute as nat, 2)),
            ImageField::Second => Some(zero_padded(datetime.second as nat, 2)),
            _ => None,
        }
    }
}

impl Extractor<ImageMetadata> for ImageField {
    /// The file name for `Filename`, the text of the Exif field for a field
    /// that has a tag, and else the part of date and time, where the image
    /// has them.
    open spec fn value(&self, meta: &ImageMetadata) -> Option<Seq<char>> {
        if *self == ImageField::Filename {
            stem_text(path_file_stem(meta.path))
        } else {
            match self.tag_of() {
                Some(tag) => field_text(exif_field(meta.exif, tag)),
                None => match meta.datetime {
                    Some(datetime) => self.datetime_text(datetime),
                    None => None,
                },
            }
        }
    }

    fn extract(&self, meta: &ImageMetadata) -> (r: Option<String>) {
        match self {
            ImageField::Year => get_datetime_field(meta, year),
            ImageField::Year2 => get_datetime_field(meta, year2),
            ImageField::Month => get_datetime_field(meta, month),
            ImageField::Day => get_datetime_field(meta, day),
            ImageField::Hour => get_datetime_field(meta, hour),
            ImageField::Minute => get_datetime_field(meta, minute),
            ImageField::Second => get_datetime_field(meta, second),
            ImageField::Filename => get_original_filename(meta),
            _ => match self.tag() {
                Some(tag) => get_exif_field(meta, tag),
                None => None,
            },
        }
    }
}

/// Every field, in the order in which the registry holds them.
pub open spec fn every_field() -> Seq<ImageField> {
    seq![
        ImageField::Year,
        ImageField::Year2,
        ImageField::Month,
        ImageField::Day,
        ImageField::Hour,
        ImageField::Minute,
        ImageField::Second,
        ImageField::FStop,
        ImageField::Iso,
        ImageField::ShutterSpeed,
        ImageField::CameraMake,
        ImageField::CameraModel,
        ImageField::CameraSerial,
        ImageField::LensMake,
        ImageField::LensModel,
        ImageField::LensSerial,
        ImageField::FocalLength,
        ImageField::FocalLength35,
        ImageField::Filename,
    ]
}

/// Every field, in the order in which the registry holds them.
pub fn all_fields() -> (r: Vec<ImageField>)
    ensures
        r@ == every_field(),
{
    let all = vec![
        ImageField::Year,
        ImageField::Year2,
        ImageField::Month,
        ImageField::Day,
        ImageField::Hour,
        ImageField::Minute,
        ImageField::Second,
        ImageField::FStop,
        ImageField::Iso,
        ImageField::ShutterSpeed,
        ImageField::CameraMake,
        ImageField::CameraModel,
        ImageField::CameraSerial,
        ImageField::LensMake,
        ImageField::LensModel,
        ImageField::LensSerial,
        ImageField::FocalLength,
        ImageField::FocalLength35,
        ImageField::Filename,
    ];
    proof {
        assert(all@ =~= every_field());
    }
    all
}

/// The position of a field in `every_field`.
pub open spec fn position_of(field: ImageField) -> int {
    match field {
        ImageField::Year => 0,
        ImageField::Year2 => 1,
        ImageField::Month => 2,
        ImageField::Day => 3,
        ImageField::Hour => 4,
        ImageField::Minute => 5,
        ImageField::Second => 6,
        ImageField::FStop => 7,
        ImageField::Iso => 8,
        ImageField::ShutterSpeed => 9,
        ImageField::CameraMake => 10,
        ImageField::CameraModel => 11,
        ImageField::CameraSerial => 12,
        ImageField::LensMake => 13,
        ImageField::LensModel => 14,
        ImageField::LensSerial => 15,
        ImageField::FocalLength => 16,
        ImageField::FocalLength35 => 17,
        ImageField::Filename => 18,
    }
}

/// Every field stands in `every_field`, once, at its position.
pub proof fn lemma_every_field_is_listed(field: ImageField)
    ensures
        0 <= position_of(field) < every_field().len(),
        every_field()[position_of(field)] == field,
        forall|k: int|
            0 <= k < every_field().len() && #[trigger] every_field()[k] == field ==> k
                == position_of(field),
{
}

/// No two fields share a name.
pub proof fn lemma_names_differ(a: ImageField, b: ImageField)
    requires
        a != b,
    ensures
        a.name_text() != b.name_text(),
{
    reveal_strlit("year");
    reveal_strlit("year2");
    reveal_strlit("month");
    reveal_strlit("day");
    reveal_strlit("hour");
    reveal_strlit("minute");
    reveal_strlit("second");
    reveal_strlit("fstop");
    reveal_strlit("iso");
    reveal_strlit("shutter_speed");
    reveal_strlit("camera_make");
    reveal_strlit("camera_model");
    reveal_strlit("camera_serial");
    reveal_strlit("lens_make");
    reveal_strlit("lens_model");
    reveal_strlit("lens_serial");
    reveal_strlit("focal_length");
    reveal_strlit("focal_length_35");
    reveal_strlit("filename");
    let x = a.name_text();
    let y = b.name_text();
    if x.len() == y.len() {
        assert(x[0] != y[0] || x[1] != y[1] || x[2] != y[2] || x[x.len() - 3] != y[x.len() - 3]);
    }
}

/// The registry of the fields of an image: every field of `every_field`
/// under its name, in that order.
pub fn image_fields() -> (r: FieldRegistry<ImageField>)
    ensures
        r@.len() == every_field().len(),
        forall|k: int|
            0 <= k < r@.len() ==> (#[trigger] r@[k]).extractor == every_field()[k] && r@[k].name@
                == every_field()[k].name_text(),
{
    let all = all_fields();
    let mut registry: FieldRegistry<ImageField> = FieldRegistry::new();
    let mut i: usize = 0;
    while i < all.len()
        invariant
            i <= all.len(),
            all@ == every_field(),
            registry@.len() == i,
            forall|k: int|
                0 <= k < i ==> (#[trigger] registry@[k]).extractor == every_field()[k]
                    && registry@[k].name@ == every_field()[k].name_text(),
        decreases all.len() - i,
    {
        let field = all[i];
        proof {
            assert forall|k: int| 0 <= k < registry@.len() implies (#[trigger] registry@[k]).name@
                != field.name_text() by {
                lemma_every_field_is_listed(field);
                lemma_every_field_is_listed(every_field()[k]);
                lemma_names_differ(every_field()[k], field);
            }
            lemma_absent_name_is_not_found(registry@, field.name_text(), 0);
        }
        registry = registry.with_field(field.name(), field);
        i += 1;
    }
    registry
}

/// In the registry of an image every field is found under its name.
pub proof fn lemma_image_field_is_found(fields: Seq<FieldDescriptor<ImageField>>, field: ImageField)
    requires
        fields.len() == every_field().len(),
        forall|k: int|
            0 <= k < fields.len() ==> (#[trigger] fields[k]).extractor == every_field()[k]
                && fields[k].name@ == every_field()[k].name_text(),
    ensures
        find_field(fields, field.name_text()) == Some(fields[position_of(field)]),
{
    lemma_every_field_is_listed(field);
    assert forall|k: int| 0 <= k < position_of(field) implies (#[trigger] fields[k]).name@
        != field.name_text() by {
        lemma_every_field_is_listed(every_field()[k]);
        lemma_names_differ(every_field()[k], field);
    }
    lemma_first_match_is_found(fields, field.name_text(), 0, position_of(field));
}

} // verus!
