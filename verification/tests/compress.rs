use image_compressor::compress::{compression_answer, worker_pool_size, CompressError, Resize};
use image_compressor::{compress_image, CompressOptions};

fn options(width: Option<u32>, height: Option<u32>, formats: &[&str], quality: Option<u8>) -> CompressOptions {
    CompressOptions {
        width,
        height,
        formats: formats.iter().map(|format| format.to_string()).collect(),
        quality,
        overwrite: None,
    }
}

#[test]
fn png_with_both_dimensions_resizes_and_saves_once() {
    let plan = compress_image("photos/in.jpg", &options(Some(200), Some(100), &["png"], None));
    assert_eq!(plan.source, "photos/in.jpg");
    assert_eq!(plan.resize, Some(Resize { width: 200, height: 100 }));
    assert_eq!(plan.saves.len(), 1);
    assert_eq!(plan.saves[0].output, "a.png");
    assert_eq!(plan.saves[0].quality, 80);
}

#[test]
fn format_without_encoder_saves_nothing() {
    let plan = compress_image("in.png", &options(Some(200), Some(100), &["webp"], Some(90)));
    assert_eq!(plan.resize, Some(Resize { width: 200, height: 100 }));
    assert!(plan.saves.is_empty());
}

#[test]
fn format_names_are_case_sensitive() {
    let plan = compress_image("in.png", &options(None, None, &["PNG", "Png", " png"], None));
    assert!(plan.saves.is_empty());
}

#[test]
fn one_dimension_alone_is_ignored() {
    assert_eq!(compress_image("a", &options(Some(200), None, &["png"], None)).resize, None);
    assert_eq!(compress_image("a", &options(None, Some(100), &["png"], None)).resize, None);
    assert_eq!(compress_image("a", &options(None, None, &["png"], None)).resize, None);
}

#[test]
fn quality_is_taken_from_the_request() {
    let plan = compress_image("a", &options(None, None, &["png"], Some(55)));
    assert_eq!(plan.saves[0].quality, 55);
    let low = compress_image("a", &options(None, None, &["png"], Some(0)));
    assert_eq!(low.saves[0].quality, 0);
    let high = compress_image("a", &options(None, None, &["png"], Some(255)));
    assert_eq!(high.saves[0].quality, 255);
}

#[test]
fn each_png_request_is_one_save() {
    let plan = compress_image("a", &options(None, None, &["png", "jpeg", "png", "webp"], Some(70)));
    assert_eq!(plan.saves.len(), 2);
    for save in &plan.saves {
        assert_eq!(save.output, "a.png");
        assert_eq!(save.quality, 70);
    }
}

#[test]
fn no_formats_means_no_saves() {
    let plan = compress_image("a", &options(Some(1), Some(1), &[], None));
    assert!(plan.saves.is_empty());
    assert_eq!(plan.resize, Some(Resize { width: 1, height: 1 }));
}

#[test]
fn dimensions_beyond_the_signed_range_wrap() {
    let plan = compress_image("a", &options(Some(u32::MAX), Some(2147483648), &[], None));
    assert_eq!(plan.resize, Some(Resize { width: -1, height: i32::MIN }));
}

#[test]
fn overwrite_changes_nothing() {
    let mut request = options(Some(10), Some(20), &["png"], Some(30));
    request.overwrite = Some(true);
    let plan = compress_image("a", &request);
    assert_eq!(plan.resize, Some(Resize { width: 10, height: 20 }));
    assert_eq!(plan.saves.len(), 1);
    assert_eq!(plan.saves[0].quality, 30);
}

#[test]
fn worker_pool_is_twice_the_cores() {
    assert_eq!(worker_pool_size(1), 2);
    assert_eq!(worker_pool_size(4), 8);
    assert_eq!(worker_pool_size(0), 0);
    assert_eq!(worker_pool_size(1073741823), 2147483646);
}

#[test]
fn loaded_image_answers_true() {
    assert!(matches!(compression_answer("in.png", None), Ok(true)));
}

#[test]
fn failed_load_is_a_declared_error() {
    let answer = compression_answer("missing.png", Some("file not found".to_string()));
    match answer {
        Err(CompressError::ImageLoadFailed { path, cause }) => {
            assert_eq!(path, "missing.png");
            assert_eq!(cause, "file not found");
        }
        Ok(_) => panic!("a failed load must not answer success"),
    }
}

#[test]
fn load_error_message_names_path_and_cause() {
    let error = compression_answer("missing.png", Some("file not found".to_string())).unwrap_err();
    assert_eq!(error.message(), "Failed to load image missing.png: file not found");
}
