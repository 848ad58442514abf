use exifrename::fields::{all_fields, image_fields, ImageField};
use exifrename::format::{get_new_name, name_from_exif, NewNameError};
use exifrename::metadata::{
    datetime_of_field, exif_field_text, get_datetime, get_datetime_field, get_exif_field,
    get_original_filename, Context, DateTime, ExifField, ImageMetadata, Tag,
};
use exifrename::template::{compile, render, Extractor, RenderError, TemplateError};
use exifrename::types::DatetimeCallback;
use std::path::PathBuf;

fn ascii(tag: exif::Tag, text: &[u8]) -> exif::Field {
    exif::Field { tag, ifd_num: exif::In::PRIMARY, value: exif::Value::Ascii(vec![text.to_vec()]) }
}

fn rational(tag: exif::Tag, num: u32, denom: u32) -> exif::Field {
    exif::Field {
        tag,
        ifd_num: exif::In::PRIMARY,
        value: exif::Value::Rational(vec![exif::Rational { num, denom }]),
    }
}

fn short(tag: exif::Tag, value: u16) -> exif::Field {
    exif::Field { tag, ifd_num: exif::In::PRIMARY, value: exif::Value::Short(vec![value]) }
}

/// The fields as a TIFF file.
fn tiff(fields: &[exif::Field]) -> Vec<u8> {
    let mut writer = exif::experimental::Writer::new();
    for field in fields {
        writer.push_field(field);
    }
    let mut out = std::io::Cursor::new(Vec::new());
    writer.write(&mut out, false).expect("the fields can be written");
    out.into_inner()
}

/// The fields as the Exif segment of a JPEG file.
fn jpeg(fields: &[exif::Field]) -> Vec<u8> {
    let body = tiff(fields);
    let length = (2 + 6 + body.len()) as u16;
    let mut out = vec![0xff, 0xd8, 0xff, 0xe1];
    out.extend_from_slice(&length.to_be_bytes());
    out.extend_from_slice(b"Exif\0\0");
    out.extend_from_slice(&body);
    out.extend_from_slice(&[0xff, 0xd9]);
    out
}

fn parsed(fields: &[exif::Field]) -> exif::Exif {
    exif::Reader::new().read_raw(tiff(fields)).expect("the fields can be read")
}

fn camera() -> Vec<exif::Field> {
    vec![
        ascii(exif::Tag::Make, b"Canon"),
        ascii(exif::Tag::Model, b"EOS 5D/Mark IV"),
        ascii(exif::Tag::DateTimeOriginal, b"2023:01:01 12:34:56"),
        rational(exif::Tag::FNumber, 28, 10),
        rational(exif::Tag::ExposureTime, 1, 250),
        short(exif::Tag::PhotographicSensitivity, 100),
        rational(exif::Tag::FocalLength, 50, 1),
        short(exif::Tag::FocalLengthIn35mmFilm, 75),
        ascii(exif::Tag::BodySerialNumber, b"0123456789"),
        ascii(exif::Tag::LensMake, b"Canon"),
        ascii(exif::Tag::LensModel, b"EF50mm f/1.8 STM"),
        ascii(exif::Tag::LensSerialNumber, b"000042"),
    ]
}

fn image(fields: &[exif::Field], path: &str) -> ImageMetadata {
    let exif = parsed(fields);
    let datetime = get_datetime(&exif);
    ImageMetadata { exif, datetime, path: PathBuf::from(path) }
}

fn new_year() -> DateTime {
    DateTime {
        year: 2023,
        month: 1,
        day: 1,
        hour: 12,
        minute: 34,
        second: 56,
        nanosecond: None,
        offset: None,
    }
}

#[test]
fn ascii_field_gives_its_first_component() {
    let im = image(&camera(), "a.jpg");
    assert_eq!(get_exif_field(&im, Tag(Context::Tiff, 0x10f)), Some("Canon".to_string()));
    assert_eq!(get_exif_field(&im, Tag(Context::Exif, 0xa431)), Some("0123456789".to_string()));
}

#[test]
fn slashes_in_a_field_become_underscores() {
    let im = image(&camera(), "a.jpg");
    assert_eq!(get_exif_field(&im, Tag(Context::Tiff, 0x110)), Some("EOS 5D_Mark IV".to_string()));
    assert_eq!(get_exif_field(&im, Tag(Context::Exif, 0xa434)), Some("EF50mm f_1.8 STM".to_string()));
    assert_eq!(get_exif_field(&im, Tag(Context::Exif, 0x829a)), Some("1_250".to_string()));
}

#[test]
fn other_fields_give_their_display_value() {
    let im = image(&camera(), "a.jpg");
    assert_eq!(get_exif_field(&im, Tag(Context::Exif, 0x829d)), Some("2.8".to_string()));
    assert_eq!(get_exif_field(&im, Tag(Context::Exif, 0x8827)), Some("100".to_string()));
    assert_eq!(get_exif_field(&im, Tag(Context::Exif, 0x920a)), Some("50".to_string()));
    assert_eq!(get_exif_field(&im, Tag(Context::Exif, 0xa405)), Some("75".to_string()));
    for field in camera() {
        let tag = Tag(
            match field.tag.context() {
                exif::Context::Tiff => Context::Tiff,
                exif::Context::Exif => Context::Exif,
                exif::Context::Gps => Context::Gps,
                _ => Context::Interop,
            },
            field.tag.number(),
        );
        if !matches!(field.value, exif::Value::Ascii(_)) {
            let shown = field.display_value().to_string().replace('/', "_");
            assert_eq!(get_exif_field(&im, tag), Some(shown));
        }
    }
}

#[test]
fn a_field_that_is_absent_gives_nothing() {
    let im = image(&[ascii(exif::Tag::Make, b"Canon")], "a.jpg");
    assert_eq!(get_exif_field(&im, Tag(Context::Tiff, 0x110)), None);
    assert_eq!(get_exif_field(&im, Tag(Context::Exif, 0x10f)), None);
    assert_eq!(get_exif_field(&im, Tag(Context::Gps, 0x10f)), None);
    assert_eq!(get_exif_field(&im, Tag(Context::Interop, 1)), None);
}

#[test]
fn the_tag_numbers_are_those_of_the_exif_crate() {
    let expected = [
        (ImageField::FStop, exif::Tag::FNumber),
        (ImageField::Iso, exif::Tag::PhotographicSensitivity),
        (ImageField::ShutterSpeed, exif::Tag::ExposureTime),
        (ImageField::CameraMake, exif::Tag::Make),
        (ImageField::CameraModel, exif::Tag::Model),
        (ImageField::CameraSerial, exif::Tag::BodySerialNumber),
        (ImageField::LensMake, exif::Tag::LensMake),
        (ImageField::LensModel, exif::Tag::LensModel),
        (ImageField::LensSerial, exif::Tag::LensSerialNumber),
        (ImageField::FocalLength, exif::Tag::FocalLength),
        (ImageField::FocalLength35, exif::Tag::FocalLengthIn35mmFilm),
    ];
    for (field, tag) in expected {
        let context = match tag.context() {
            exif::Context::Tiff => Context::Tiff,
            exif::Context::Exif => Context::Exif,
            other => panic!("{:?}", other),
        };
        assert_eq!(field.tag(), Some(Tag(context, tag.number())));
    }
    for field in [ImageField::Year, ImageField::Second, ImageField::Filename] {
        assert_eq!(field.tag(), None);
    }
    assert_eq!(exif::Tag::DateTimeOriginal, exif::Tag(exif::Context::Exif, 0x9003));
}

#[test]
fn text_of_a_field_that_was_looked_up() {
    assert_eq!(exif_field_text(None), None);
    let field = |ascii: Option<Vec<Vec<u8>>>, display: &str| {
        Some(ExifField { ascii, display: display.to_string() })
    };
    assert_eq!(exif_field_text(field(None, "1/250")), Some("1_250".to_string()));
    assert_eq!(exif_field_text(field(Some(vec![]), "shown/so")), Some("shown_so".to_string()));
    assert_eq!(
        exif_field_text(field(Some(vec![b"first/part".to_vec(), b"second".to_vec()]), "\"quoted\"")),
        Some("first_part".to_string())
    );
    assert_eq!(exif_field_text(field(Some(vec![vec![0xff, 0xfe]]), "shown")), None);
    assert_eq!(exif_field_text(field(Some(vec![vec![]]), "shown")), Some(String::new()));
    assert_eq!(
        exif_field_text(field(Some(vec!["Zürich".as_bytes().to_vec()]), "shown")),
        Some("Zürich".to_string())
    );
}

#[test]
fn date_and_time_are_read_from_the_time_of_the_picture() {
    assert_eq!(get_datetime(&parsed(&camera())), Some(new_year()));
    assert_eq!(get_datetime(&parsed(&[ascii(exif::Tag::Make, b"Canon")])), None);
    assert_eq!(get_datetime(&parsed(&[ascii(exif::Tag::DateTime, b"2023:01:01 12:34:56")])), None);
    assert_eq!(
        get_datetime(&parsed(&[ascii(exif::Tag::DateTimeOriginal, b"not a date at all!!")])),
        None
    );
    assert_eq!(
        get_datetime(&parsed(&[ascii(exif::Tag::DateTimeOriginal, b"    :  :     :  :  ")])),
        None
    );
    assert_eq!(get_datetime(&parsed(&[short(exif::Tag::DateTimeOriginal, 2023)])), None);
}

#[test]
fn date_and_time_of_a_field_that_was_looked_up() {
    assert_eq!(datetime_of_field(None), None);
    let field = |ascii: Option<Vec<Vec<u8>>>| Some(ExifField { ascii, display: String::new() });
    assert_eq!(datetime_of_field(field(None)), None);
    assert_eq!(datetime_of_field(field(Some(vec![]))), None);
    assert_eq!(
        datetime_of_field(field(Some(vec![b"1999:12:31 23:59:58".to_vec(), b"junk".to_vec()]))),
        Some(DateTime {
            year: 1999,
            month: 12,
            day: 31,
            hour: 23,
            minute: 59,
            second: 58,
            nanosecond: None,
            offset: None
        })
    );
    assert_eq!(
        datetime_of_field(field(Some(vec![b"2016:13:99 03:02:01".to_vec()]))).map(|d| (d.month, d.day)),
        Some((13, 99))
    );
    assert_eq!(datetime_of_field(field(Some(vec![b"2016:05:04".to_vec()]))), None);
}

#[test]
fn original_filename_is_the_stem_of_the_path() {
    let name = |path: &str| get_original_filename(&image(&camera(), path));
    assert_eq!(name("photos/IMG_0001.jpg"), Some("IMG_0001".to_string()));
    assert_eq!(name("IMG_0001"), Some("IMG_0001".to_string()));
    assert_eq!(name("a.tar.gz"), Some("a.tar".to_string()));
    assert_eq!(name(".hidden"), Some(".hidden".to_string()));
    assert_eq!(name("dir/"), Some("dir".to_string()));
    assert_eq!(name("/"), None);
    assert_eq!(name("dir/.."), None);
    assert_eq!(name(""), None);
}

#[test]
fn datetime_field_applies_the_callback() {
    let im = image(&camera(), "a.jpg");
    assert_eq!(get_datetime_field(&im, |d| format!("{}", d.year)), Some("2023".to_string()));
    assert_eq!(get_datetime_field(&im, |d| format!("{:02}", d.minute)), Some("34".to_string()));
    let im = image(&[ascii(exif::Tag::Make, b"Canon")], "a.jpg");
    assert_eq!(get_datetime_field(&im, |d| format!("{}", d.year)), None);
}

#[test]
fn datetime_field_takes_a_function() {
    fn month_and_day(datetime: &DateTime) -> String {
        format!("{:02}-{:02}", datetime.month, datetime.day)
    }
    let im = image(&camera(), "a.jpg");
    let callback: DatetimeCallback = month_and_day;
    assert_eq!(get_datetime_field(&im, callback), Some("01-01".to_string()));
    let callback: DatetimeCallback = exifrename::fields::second;
    assert_eq!(get_datetime_field(&im, callback), Some("56".to_string()));
}

#[test]
fn fields_of_date_and_time() {
    let mut im = image(&camera(), "a.jpg");
    im.datetime =
        Some(DateTime { year: 2005, month: 3, day: 9, hour: 0, minute: 7, second: 59, ..new_year() });
    let text = |field: ImageField| field.extract(&im);
    assert_eq!(text(ImageField::Year), Some("2005".to_string()));
    assert_eq!(text(ImageField::Year2), Some("5".to_string()));
    assert_eq!(text(ImageField::Month), Some("03".to_string()));
    assert_eq!(text(ImageField::Day), Some("09".to_string()));
    assert_eq!(text(ImageField::Hour), Some("00".to_string()));
    assert_eq!(text(ImageField::Minute), Some("07".to_string()));
    assert_eq!(text(ImageField::Second), Some("59".to_string()));
    im.datetime = Some(DateTime { year: 0, month: 255, day: 100, ..new_year() });
    let text = |field: ImageField| field.extract(&im);
    assert_eq!(text(ImageField::Year), Some("0".to_string()));
    assert_eq!(text(ImageField::Year2), Some("0".to_string()));
    assert_eq!(text(ImageField::Month), Some("255".to_string()));
    assert_eq!(text(ImageField::Day), Some("100".to_string()));
    im.datetime = Some(DateTime { year: 1999, ..new_year() });
    assert_eq!(ImageField::Year2.extract(&im), Some("99".to_string()));
    im.datetime = None;
    assert_eq!(ImageField::Year.extract(&im), None);
    assert_eq!(ImageField::Second.extract(&im), None);
}

#[test]
fn every_field_is_read_from_the_image() {
    let im = image(&camera(), "in/IMG_7.jpeg");
    let expected = [
        (ImageField::Year, "2023"),
        (ImageField::Year2, "23"),
        (ImageField::Month, "01"),
        (ImageField::Day, "01"),
        (ImageField::Hour, "12"),
        (ImageField::Minute, "34"),
        (ImageField::Second, "56"),
        (ImageField::FStop, "2.8"),
        (ImageField::Iso, "100"),
        (ImageField::ShutterSpeed, "1_250"),
        (ImageField::CameraMake, "Canon"),
        (ImageField::CameraModel, "EOS 5D_Mark IV"),
        (ImageField::CameraSerial, "0123456789"),
        (ImageField::LensMake, "Canon"),
        (ImageField::LensModel, "EF50mm f_1.8 STM"),
        (ImageField::LensSerial, "000042"),
        (ImageField::FocalLength, "50"),
        (ImageField::FocalLength35, "75"),
        (ImageField::Filename, "IMG_7"),
    ];
    assert_eq!(all_fields(), expected.iter().map(|pair| pair.0).collect::<Vec<ImageField>>());
    for (field, text) in expected {
        assert_eq!(field.extract(&im), Some(text.to_string()), "{:?}", field);
    }
}

#[test]
fn the_registry_holds_every_field_under_its_name() {
    let registry = image_fields();
    let names = [
        "year",
        "year2",
        "month",
        "day",
        "hour",
        "minute",
        "second",
        "fstop",
        "iso",
        "shutter_speed",
        "camera_make",
        "camera_model",
        "camera_serial",
        "lens_make",
        "lens_model",
        "lens_serial",
        "focal_length",
        "focal_length_35",
        "filename",
    ];
    assert_eq!(registry.len(), names.len());
    for (field, name) in all_fields().into_iter().zip(names) {
        assert_eq!(field.name(), name);
        let found = registry.lookup(name).expect("the field is registered");
        assert_eq!(found.name, name);
        assert_eq!(found.extractor, field);
    }
    assert!(registry.lookup("Year").is_none());
    assert!(registry.lookup("").is_none());
}

#[test]
fn names_are_rendered_from_date_and_time() {
    let registry = image_fields();
    let im = image(&camera(), "in/1.jpg");
    let name = |template: &str| render(&compile(template, &registry).unwrap(), &im);
    assert_eq!(name("{year}_{day}"), Ok("2023_01".to_string()));
    assert_eq!(name("{year}_{month}_{day}"), Ok("2023_01_01".to_string()));
    assert_eq!(
        name("{year2}{month}{day}-{hour}{minute}{second} {{{filename}}}"),
        Ok("230101-123456 {1}".to_string())
    );
    assert_eq!(
        name("{camera_make}/{camera_model}/{fstop}"),
        Ok("Canon/EOS 5D_Mark IV/2.8".to_string())
    );
    assert_eq!(
        compile("{year}_{nope}", &registry).err(),
        Some(TemplateError::UnknownField("nope".to_string()))
    );
}

#[test]
fn an_image_without_the_field_is_not_named() {
    let registry = image_fields();
    let compiled = compile("{year}-{lens_model}", &registry).unwrap();
    let im = image(&[ascii(exif::Tag::Make, b"Canon")], "in/1.jpg");
    assert_eq!(render(&compiled, &im), Err(RenderError::MissingField("year".to_string())));
    let im = image(&[ascii(exif::Tag::DateTimeOriginal, b"2023:01:01 12:34:56")], "in/1.jpg");
    assert_eq!(render(&compiled, &im), Err(RenderError::MissingField("lens_model".to_string())));
}

#[test]
fn new_name_from_the_bytes_of_a_tiff_file() {
    let registry = image_fields();
    let compiled = compile("{year}_{month}_{day}", &registry).unwrap();
    assert_eq!(
        get_new_name(PathBuf::from("in/1.tif"), tiff(&camera()), &compiled),
        Ok("2023_01_01".to_string())
    );
}

#[test]
fn new_name_from_the_bytes_of_a_jpeg_file() {
    let registry = image_fields();
    let compiled = compile("{year}_{day}_{filename}", &registry).unwrap();
    assert_eq!(
        get_new_name(PathBuf::from("in/1.jpg"), jpeg(&camera()), &compiled),
        Ok("2023_01_1".to_string())
    );
}

#[test]
fn new_name_of_a_file_without_exif_data() {
    let registry = image_fields();
    let compiled = compile("{year}", &registry).unwrap();
    for data in [Vec::new(), b"no image".to_vec(), vec![0xff, 0xd8, 0xff, 0xd9]] {
        match get_new_name(PathBuf::from("in/noexif.jpg"), data, &compiled) {
            Err(NewNameError::Exif(text)) => assert!(!text.is_empty()),
            other => panic!("{:?}", other),
        }
    }
}

#[test]
fn new_name_of_a_file_without_the_date() {
    let registry = image_fields();
    let compiled = compile("{year}", &registry).unwrap();
    assert_eq!(
        get_new_name(PathBuf::from("in/1.jpg"), jpeg(&[ascii(exif::Tag::Make, b"Canon")]), &compiled),
        Err(NewNameError::Render(RenderError::MissingField("year".to_string())))
    );
    assert_eq!(
        name_from_exif(PathBuf::from("in/1.jpg"), parsed(&[ascii(exif::Tag::Make, b"Canon")]), &compiled),
        Err(NewNameError::Render(RenderError::MissingField("year".to_string())))
    );
    let compiled = compile("{camera_make}.{filename}", &registry).unwrap();
    assert_eq!(
        name_from_exif(PathBuf::from("in/1.jpg"), parsed(&[ascii(exif::Tag::Make, b"Canon")]), &compiled),
        Ok("Canon.1".to_string())
    );
}
