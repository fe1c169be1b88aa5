//! Backend logic of a desktop image-compression utility.
//!
//! The library classifies paths as supported images, flattens a listing of
//! files and directories into image records, reports pixel dimensions of an
//! image held in memory, and plans the steps of a compression request.
//! Reading the file system and driving the image-processing library are left
//! to the caller, who hands in plain values and performs the planned steps.

pub mod compress;
pub mod dimensions;
pub mod info;
pub mod paths;
pub mod scan;

pub use compress::compress_image;
pub use compress::CompressOptions;
pub use dimensions::get_image_dimensions;
pub use info::get_image_info_from_path;
pub use info::ImageInfo;
pub use scan::read_directory;
pub use scan::read_image_files;
