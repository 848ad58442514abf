//! The rendered name of one image.

use crate::fields::ImageField;
use crate::metadata::{
    date_time_original, exif_field, field_datetime, get_datetime, ImageMetadata,
};
use crate::outside::{container_exif, exif_error_text, read_exif};
use crate::template::{render, render_tokens, CompiledTemplate, RenderError, RenderFault};
use std::path::PathBuf;
use vstd::prelude::*;
use vstd::string::StringExecFns;

verus! {

/// Why an image gets no rendered name.
#[derive(Clone, Debug, PartialEq, Eq)]
pub enum NewNameError {
    /// The Exif attributes of the image could not be read. The text says why.
    Exif(String),
    /// The template could not be rendered.
    Render(RenderError),
}

/// The metadata of the image at `path` whose Exif attributes are `exif`.
pub open spec fn metadata_of(path: PathBuf, exif: exif::Exif) -> ImageMetadata {
    ImageMetadata { exif, datetime: field_datetime(exif_field(exif, date_time_original())), path }
}

/// What `render_tokens` gives, as the result of naming an image.
pub open spec fn named(
    rendered: Result<Seq<char>, RenderFault>,
    name: Result<String, NewNameError>,
) -> bool {
    match rendered {
        Ok(text) => name matches Ok(found) && found@ == text,
        Err(fault) => name matches Err(NewNameError::Render(error)) && error@ == fault,
    }
}

/// The rendered name of the image at `path`, whose Exif attributes are
/// `exif`.
pub fn name_from_exif<'a>(
    path: PathBuf,
    exif: exif::Exif,
    fp: &CompiledTemplate<'a, ImageField>,
) -> (r: Result<String, NewNameError>)
    ensures
        named(render_tokens(fp.tokens(), &metadata_of(path, exif)), r),
{
    let dt = get_datetime(&exif);
    let im = ImageMetadata { exif, datetime: dt, path };
    match render(fp, &im) {
        Ok(name) => Ok(name),
        Err(error) => Err(NewNameError::Render(error)),
    }
}

/// The rendered name of the image at `path`, whose file holds the bytes
/// `data`. Where no Exif attributes can be read from the bytes, that is the
/// error; else the name is rendered from the attributes and the path.
pub fn get_new_name<'a>(path: PathBuf, data: Vec<u8>, fp: &CompiledTemplate<'a, ImageField>) -> (r:
    Result<String, NewNameError>)
    ensures
        match container_exif(data@) {
            Some(exif) => named(render_tokens(fp.tokens(), &metadata_of(path, exif)), r),
            None => r matches Err(NewNameError::Exif(_)),
        },
{
    match read_exif(data) {
        Ok(exif) => name_from_exif(path, exif, fp),
        Err(error) => Err(NewNameError::Exif(exif_error_text(&error))),
    }
}

impl NewNameError {
    /// The error in words.
    pub open spec fn text(self) -> Seq<char> {
        match self {
            NewNameError::Exif(reason) => "Failed to read EXIF data: "@ + reason@,
            NewNameError::Render(error) => error.text(),
        }
    }

    /// The error in words.
    pub fn message(&self) -> (r: String)
        ensures
            r@ == self.text(),
    {
        match self {
            NewNameError::Exif(reason) => {
                let mut text = "Failed to read EXIF data: ".to_owned();
                text.append(reason.as_str());
                text
            },
            NewNameError::Render(error) => error.message(),
        }
    }
}

} // verus!
