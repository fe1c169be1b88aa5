//! Pixel dimensions of an image, read from its leading bytes without
//! decoding it.

use vstd::prelude::*;
use vstd::string::StringExecFns;

verus! {

#[verifier::external_type_specification]
#[verifier::external_body]
pub struct ExImageError(imagesize::ImageError);

/// The width and height that `imagesize::blob_size` finds in `data`, or
/// `None` where it reports an error.
pub uninterp spec fn blob_dimensions(data: Seq<u8>) -> Option<(usize, usize)>;

/// Calls `imagesize::blob_size`. Trusted: on success the width and height
/// are those that `blob_dimensions` names for these bytes, and an error is
/// returned exactly where it names none.
#[verifier::external_body]
pub(crate) fn blob_size(data: &[u8]) -> (probed: Result<(usize, usize), imagesize::ImageError>)
    ensures
        match probed {
            Ok(size) => blob_dimensions(data@) == Some(size),
            Err(_) => blob_dimensions(data@) is None,
        },
{
    match imagesize::blob_size(data) {
        Ok(size) => Ok((size.width, size.height)),
        Err(error) => Err(error),
    }
}

/// Formats an `imagesize::ImageError` through its `Display` impl. Trusted;
/// nothing is claimed of the text.
#[verifier::external_body]
pub(crate) fn error_text(error: &imagesize::ImageError) -> (text: String) {
    error.to_string()
}

/// What was found at the path whose image is to be measured.
#[derive(Debug)]
pub enum FileContents {
    /// The path does not name a regular file.
    NotAFile,
    /// A regular file that could not be opened or read, with the reason.
    Unreadable { reason: String },
    /// A regular file and its bytes.
    Bytes { data: Vec<u8> },
}

/// The message for a path that is not a regular file.
pub open spec fn not_a_file_message() -> Seq<char> {
    "Provided path is not a file"@
}

/// The message for an image that could not be opened or parsed for the
/// given reason.
pub open spec fn open_failure_message(reason: Seq<char>) -> Seq<char> {
    "Failed to open image: "@ + reason
}

/// Whether a message reports that an image could not be opened or parsed,
/// whatever reason it gives.
pub open spec fn is_open_failure(message: Seq<char>) -> bool {
    exists|reason: Seq<char>| message == #[trigger] open_failure_message(reason)
}

/// Turns the outcome of measuring an image into the answer for the caller:
/// the dimensions as they are, or the reason behind a fixed prefix.
pub fn dimensions_answer(probed: Result<(usize, usize), String>) -> (answer: Result<
    (usize, usize),
    String,
>)
    ensures
        match probed {
            Ok(size) => answer == Ok::<(usize, usize), String>(size),
            Err(reason) => answer matches Err(message) && message@ == open_failure_message(
                reason@,
            ),
        },
{
    match probed {
        Ok(size) => Ok(size),
        Err(reason) => Err(String::from_str("Failed to open image: ").concat(reason.as_str())),
    }
}

/// Reports the width and height of an image. A path that is not a regular
/// file and a file that cannot be read or parsed each give a message; the
/// dimensions are returned exactly when the bytes parse as an image.
pub fn get_image_dimensions(contents: &FileContents) -> (answer: Result<(usize, usize), String>)
    ensures
        match *contents {
            FileContents::NotAFile => answer matches Err(message) && message@
                == not_a_file_message(),
            FileContents::Unreadable { reason } => answer matches Err(message) && message@
                == open_failure_message(reason@),
            FileContents::Bytes { data } => match blob_dimensions(data@) {
                Some(size) => answer == Ok::<(usize, usize), String>(size),
                None => answer matches Err(message) && is_open_failure(message@),
            },
        },
{
    match contents {
        FileContents::NotAFile => Err(String::from_str("Provided path is not a file")),
        FileContents::Unreadable { reason } => dimensions_answer(Err(reason.clone())),
        FileContents::Bytes { data } => match blob_size(data.as_slice()) {
            Ok(size) => dimensions_answer(Ok(size)),
            Err(error) => {
                let reason = error_text(&error);
                let answer = dimensions_answer(Err(reason));
                assert(answer matches Err(message) && message@ == open_failure_message(reason@));
                answer
            },
        },
    }
}

} // verus!
