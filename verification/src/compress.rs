//! Planning a compression request: whether to resize, and which encoders to
//! run with which quality. The caller loads the image and performs the plan.

use vstd::prelude::*;
use vstd::string::StringExecFns;

verus! {

/// The parameters of one compression request.
#[derive(Debug)]
pub struct CompressOptions {
    /// Target width; resizing happens only where the height is given too.
    pub width: Option<u32>,
    /// Target height; resizing happens only where the width is given too.
    pub height: Option<u32>,
    /// The requested output formats, matched by exact name.
    pub formats: Vec<String>,
    /// Encoder quality from 0 to 100; 80 where absent.
    pub quality: Option<u8>,
    /// Accepted with the request and not consulted by the planning.
    pub overwrite: Option<bool>,
}

/// A resize that fits the image into a box, keeping its aspect ratio.
#[derive(Debug, Clone, Copy, PartialEq, Eq, Structural)]
pub struct Resize {
    pub width: i32,
    pub height: i32,
}

/// One run of the PNG encoder.
#[derive(Debug)]
pub struct PngSave {
    /// Where the encoded image is written.
    pub output: String,
    /// The encoder's quality setting.
    pub quality: i32,
}

/// What a [`PngSave`] holds, as mathematical values.
pub struct PngSaveModel {
    pub output: Seq<char>,
    pub quality: i32,
}

impl View for PngSave {
    type V = PngSaveModel;

    open spec fn view(&self) -> PngSaveModel {
        PngSaveModel { output: self.output@, quality: self.quality }
    }
}

/// The steps of one compression: load `source`, resize where asked, then
/// run the encoders in order.
#[derive(Debug)]
pub struct CompressPlan {
    pub source: String,
    pub resize: Option<Resize>,
    pub saves: Vec<PngSave>,
}

/// The views of a sequence of encoder runs, in order.
pub open spec fn save_models(saves: Seq<PngSave>) -> Seq<PngSaveModel> {
    saves.map_values(|save: PngSave| save@)
}

/// The quality used where a request names none.
pub open spec fn default_quality() -> i32 {
    80
}

/// The path that every encoded image is written to.
pub open spec fn output_path() -> Seq<char> {
    "a.png"@
}

/// The resize of a request: present exactly when both width and height are.
pub open spec fn planned_resize(width: Option<u32>, height: Option<u32>) -> Option<Resize> {
    match (width, height) {
        (Some(w), Some(h)) => Some(Resize { width: w as i32, height: h as i32 }),
        _ => None,
    }
}

/// The encoder quality of a request.
pub open spec fn planned_quality(quality: Option<u8>) -> i32 {
    match quality {
        Some(q) => q as i32,
        None => default_quality(),
    }
}

/// The encoder runs of a request: one PNG run for each requested format
/// that is exactly `png`, and nothing for any other format.
pub open spec fn planned_saves(formats: Seq<String>, quality: i32) -> Seq<PngSaveModel>
    decreases formats.len(),
{
    if formats.len() == 0 {
        Seq::empty()
    } else {
        let earlier = planned_saves(formats.drop_last(), quality);
        if formats.last()@ == "png"@ {
            earlier.push(PngSaveModel { output: output_path(), quality })
        } else {
            earlier
        }
    }
}

/// The number of requested formats that are exactly `png`.
pub open spec fn png_requests(formats: Seq<String>) -> nat
    decreases formats.len(),
{
    if formats.len() == 0 {
        0
    } else if formats.last()@ == "png"@ {
        png_requests(formats.drop_last()) + 1
    } else {
        png_requests(formats.drop_last())
    }
}

/// A request yields one encoder run for each `png` it names, and each run
/// writes to the same path with the same quality; formats without an
/// encoder add nothing.
pub proof fn lemma_planned_saves(formats: Seq<String>, quality: i32)
    ensures
        planned_saves(formats, quality).len() == png_requests(formats),
        forall|i: int|
            0 <= i < planned_saves(formats, quality).len() ==> #[trigger] planned_saves(
                formats,
                quality,
            )[i] == (PngSaveModel { output: output_path(), quality }),
    decreases formats.len(),
{
    if formats.len() > 0 {
        lemma_planned_saves(formats.drop_last(), quality);
    }
}

/// Plans the compression of the image at `file_path`: a resize where both
/// width and height are given, then one PNG encoding for each requested
/// `png`, at the requested quality or the default.
pub fn compress_image(file_path: &str, options: &CompressOptions) -> (plan: CompressPlan)
    ensures
        plan.source@ == file_path@,
        plan.resize == planned_resize(options.width, options.height),
        save_models(plan.saves@) == planned_saves(
            options.formats@,
            planned_quality(options.quality),
        ),
{
    let resize = match (options.width, options.height) {
        (Some(w), Some(h)) => Some(
            Resize {
                width: #[verifier::truncate]
                (w as i32),
                height: #[verifier::truncate]
                (h as i32),
            },
        ),
        _ => None,
    };
    let quality: i32 = match options.quality {
        Some(q) => q as i32,
        None => 80,
    };
    let png = String::from_str("png");
    let mut saves: Vec<PngSave> = Vec::new();
    let mut i: usize = 0;
    assert(save_models(saves@) =~= planned_saves(options.formats@.take(0), quality));
    while i < options.formats.len()
        invariant
            i <= options.formats.len(),
            png@ == "png"@,
            save_models(saves@) == planned_saves(options.formats@.take(i as int), quality),
        decreases options.formats.len() - i,
    {
        assert(options.formats@.take(i + 1).drop_last() =~= options.formats@.take(i as int));
        if options.formats[i] == png {
            let save = PngSave { output: String::from_str("a.png"), quality };
            assert(save_models(saves@.push(save)) =~= save_models(saves@).push(save@));
            saves.push(save);
        }
        i += 1;
    }
    assert(options.formats@.take(i as int) =~= options.formats@);
    CompressPlan { source: String::from_str(file_path), resize, saves }
}

/// Why a compression request failed.
#[derive(Debug)]
pub enum CompressError {
    /// The source image at `path` could not be loaded, for the given cause.
    ImageLoadFailed { path: String, cause: String },
}

impl CompressError {
    /// The text of the error: a fixed opening, the path, and the cause.
    pub open spec fn message_text(self) -> Seq<char> {
        match self {
            CompressError::ImageLoadFailed { path, cause } => "Failed to load image "@ + path@
                + ": "@ + cause@,
        }
    }

    /// The error as a message for the caller.
    pub fn message(&self) -> (text: String)
        ensures
            text@ == self.message_text(),
    {
        match self {
            CompressError::ImageLoadFailed { path, cause } => String::from_str(
                "Failed to load image ",
            ).concat(path.as_str()).concat(": ").concat(cause.as_str()),
        }
    }
}

/// The answer to a compression request once its plan was carried out.
/// `load_failure` is the cause for which the source image could not be
/// loaded, or `None` where it was loaded. A loaded image answers `true`,
/// whatever the encoders reported; a failed load is the only error.
pub fn compression_answer(file_path: &str, load_failure: Option<String>) -> (answer: Result<
    bool,
    CompressError,
>)
    ensures
        match load_failure {
            None => answer matches Ok(done) && done,
            Some(reason) => answer matches Err(CompressError::ImageLoadFailed { path, cause })
                && path@ == file_path@ && cause@ == reason@,
        },
{
    match load_failure {
        None => Ok(true),
        Some(cause) => Err(
            CompressError::ImageLoadFailed { path: String::from_str(file_path), cause },
        ),
    }
}

/// The size of the image library's worker pool for a machine with
/// `parallelism` logical cores: twice their number.
pub fn worker_pool_size(parallelism: usize) -> (workers: i32)
    requires
        2 * parallelism <= i32::MAX,
    ensures
        workers == 2 * parallelism,
{
    2 * (parallelism as i32)
}

} // verus!
