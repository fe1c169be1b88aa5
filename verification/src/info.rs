//! The record of one discovered image and the rule that decides whether a
//! path names a supported image.

use vstd::prelude::*;
use vstd::string::*;
use crate::paths::{extension_of, file_name_of, lowercase, lowercase_of, path_extension, path_file_name};

verus! {

/// What an [`ImageInfo`] holds, as mathematical values.
pub struct ImageRecord {
    pub file_name: Seq<char>,
    pub file_path: Seq<char>,
    pub extension: Seq<char>,
    pub file_size: u64,
}

/// One discovered image: base name, path as supplied, extension as written
/// in the path, and size in bytes.
#[derive(Debug)]
pub struct ImageInfo {
    file_name: String,
    file_path: String,
    extension: String,
    file_size: u64,
}

impl View for ImageInfo {
    type V = ImageRecord;

    closed spec fn view(&self) -> ImageRecord {
        ImageRecord {
            file_name: self.file_name@,
            file_path: self.file_path@,
            extension: self.extension@,
            file_size: self.file_size,
        }
    }
}

impl ImageRecord {
    /// Whether the record's extension names a supported image format.
    pub open spec fn is_image(self) -> bool {
        is_image_extension(self.extension)
    }
}

/// The views of a sequence of image records, in order.
pub open spec fn records(images: Seq<ImageInfo>) -> Seq<ImageRecord> {
    images.map_values(|image: ImageInfo| image@)
}

/// Whether `lower`, an extension already in lowercase, is one of the
/// supported image formats: png, jpg, jpeg, svg, webp.
pub open spec fn is_supported_format(lower: Seq<char>) -> bool {
    lower == "png"@ || lower == "jpg"@ || lower == "jpeg"@ || lower == "svg"@ || lower == "webp"@
}

/// Whether an extension, in any letter case, names a supported image format.
pub open spec fn is_image_extension(extension: Seq<char>) -> bool {
    is_supported_format(lowercase_of(extension))
}

/// The record of the file at `path`, whose metadata gave `size` (`None`
/// where it could not be read): present exactly when the metadata was read
/// and the path has an extension that names a supported format.
pub open spec fn classified(path: Seq<char>, size: Option<u64>) -> Option<ImageRecord> {
    match (size, extension_of(path)) {
        (Some(file_size), Some(extension)) => if is_image_extension(extension) {
            Some(
                ImageRecord {
                    file_name: file_name_of(path).unwrap(),
                    file_path: path,
                    extension,
                    file_size,
                },
            )
        } else {
            None
        },
        _ => None,
    }
}

/// The view of an optional image record.
pub open spec fn record_of(image: Option<ImageInfo>) -> Option<ImageRecord> {
    match image {
        Some(info) => Some(info@),
        None => None,
    }
}

/// Decides whether a lowercase extension is a supported image format.
pub fn supported_format(lower: &String) -> (supported: bool)
    ensures
        supported == is_supported_format(lower@),
{
    *lower == String::from_str("png") || *lower == String::from_str("jpg") || *lower
        == String::from_str("jpeg") || *lower == String::from_str("svg") || *lower
        == String::from_str("webp")
}

/// Decides whether an extension names a supported image format, whatever
/// its letter case.
pub fn supported_extension(extension: &str) -> (supported: bool)
    ensures
        supported == is_image_extension(extension@),
{
    let lower = lowercase(extension);
    supported_format(&lower)
}

/// Classifies one path. `size` is the length that the file's metadata
/// reported, or `None` where the metadata could not be read. The result is
/// the image's record where the path has a supported extension, and nothing
/// otherwise; the extension is kept as the path writes it.
pub fn get_image_info_from_path(path: &str, size: Option<u64>) -> (image: Option<ImageInfo>)
    ensures
        record_of(image) == classified(path@, size),
        image is Some <==> size is Some && extension_of(path@) is Some && is_image_extension(
            extension_of(path@).unwrap(),
        ),
        image matches Some(info) ==> {
            &&& Some(info@.file_name) == file_name_of(path@)
            &&& info@.file_path == path@
            &&& Some(info@.extension) == extension_of(path@)
            &&& Some(info@.file_size) == size
            &&& info@.is_image()
        },
{
    let file_size = match size {
        Some(file_size) => file_size,
        None => { return None; },
    };
    let extension = match path_extension(path) {
        Some(extension) => extension,
        None => { return None; },
    };
    if !supported_extension(extension.as_str()) {
        return None;
    }
    match path_file_name(path) {
        Some(file_name) => Some(
            ImageInfo { file_name, file_path: String::from_str(path), extension, file_size },
        ),
        None => None,
    }
}

impl ImageInfo {
    /// Every record is that of a supported image: its extension, in
    /// whatever letter case, names one of the supported formats.
    #[verifier::type_invariant]
    pub closed spec fn well_formed(&self) -> bool {
        is_image_extension(self.extension@)
    }

    /// The base name of the file.
    pub fn file_name(&self) -> (name: &str)
        ensures
            name@ == self@.file_name,
    {
        self.file_name.as_str()
    }

    /// The path of the file as it was supplied.
    pub fn file_path(&self) -> (path: &str)
        ensures
            path@ == self@.file_path,
    {
        self.file_path.as_str()
    }

    /// The extension as the path writes it; in whatever letter case, it
    /// names a supported format.
    pub fn extension(&self) -> (extension: &str)
        ensures
            extension@ == self@.extension,
            self@.is_image(),
    {
        proof {
            use_type_invariant(self);
        }
        self.extension.as_str()
    }

    /// The size of the file in bytes.
    pub fn file_size(&self) -> (size: u64)
        ensures
            size == self@.file_size,
    {
        self.file_size
    }
}

} // verus!
