use image_compressor::dimensions::{dimensions_answer, FileContents};
use image_compressor::get_image_dimensions;

fn png_header(width: u32, height: u32) -> Vec<u8> {
    let mut data = vec![0x89, 0x50, 0x4E, 0x47, 0x0D, 0x0A, 0x1A, 0x0A];
    data.extend_from_slice(&[0x00, 0x00, 0x00, 0x0D, 0x49, 0x48, 0x44, 0x52]);
    data.extend_from_slice(&width.to_be_bytes());
    data.extend_from_slice(&height.to_be_bytes());
    data.extend_from_slice(&[0x08, 0x06, 0x00, 0x00, 0x00, 0x9A, 0x38, 0xC4]);
    data
}

#[test]
fn png_dimensions_are_read() {
    let contents = FileContents::Bytes { data: png_header(800, 600) };
    assert_eq!(get_image_dimensions(&contents), Ok((800, 600)));
    let other = FileContents::Bytes { data: png_header(123, 321) };
    assert_eq!(get_image_dimensions(&other), Ok((123, 321)));
}

#[test]
fn not_a_file_is_reported() {
    assert_eq!(
        get_image_dimensions(&FileContents::NotAFile),
        Err("Provided path is not a file".to_string())
    );
}

#[test]
fn unreadable_file_is_reported_with_its_reason() {
    let contents = FileContents::Unreadable { reason: "permission denied".to_string() };
    assert_eq!(
        get_image_dimensions(&contents),
        Err("Failed to open image: permission denied".to_string())
    );
}

#[test]
fn bytes_that_are_no_image_give_an_error() {
    let contents = FileContents::Bytes { data: b"just some plain text, nothing more".to_vec() };
    let message = get_image_dimensions(&contents).unwrap_err();
    assert!(message.starts_with("Failed to open image: "));
    assert!(message.len() > "Failed to open image: ".len());
}

#[test]
fn truncated_data_gives_an_error() {
    let empty = FileContents::Bytes { data: vec![] };
    assert!(get_image_dimensions(&empty).unwrap_err().starts_with("Failed to open image: "));
    let cut = FileContents::Bytes { data: png_header(800, 600)[..18].to_vec() };
    assert!(get_image_dimensions(&cut).unwrap_err().starts_with("Failed to open image: "));
}

#[test]
fn answer_passes_dimensions_and_prefixes_reasons() {
    assert_eq!(dimensions_answer(Ok((1, 2))), Ok((1, 2)));
    assert_eq!(
        dimensions_answer(Err("bad header".to_string())),
        Err("Failed to open image: bad header".to_string())
    );
    assert_eq!(dimensions_answer(Err(String::new())), Err("Failed to open image: ".to_string()));
}
