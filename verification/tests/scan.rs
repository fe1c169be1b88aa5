use image_compressor::scan::PathEntry;
use image_compressor::{read_directory, read_image_files, ImageInfo};

fn file(path: &str, size: u64) -> PathEntry {
    PathEntry::File { path: path.to_string(), size: Some(size) }
}

fn dir(entries: Vec<PathEntry>) -> PathEntry {
    PathEntry::Directory { entries }
}

fn paths(images: &Vec<ImageInfo>) -> Vec<String> {
    images.iter().map(|image| image.file_path().to_string()).collect()
}

#[test]
fn empty_listing_has_no_images() {
    assert!(read_directory(&vec![]).is_empty());
    assert!(read_image_files(&vec![]).is_empty());
}

#[test]
fn directory_scan_finds_images_at_every_depth() {
    let listing = vec![
        file("root/a.png", 1),
        file("root/notes.txt", 2),
        dir(vec![
            file("root/sub/b.JPG", 3),
            dir(vec![file("root/sub/deep/c.webp", 4), file("root/sub/deep/d.md", 5)]),
            dir(vec![]),
            file("root/sub/e", 6),
        ]),
        file("root/f.svg", 7),
    ];
    let images = read_directory(&listing);
    assert_eq!(
        paths(&images),
        vec!["root/a.png", "root/sub/b.JPG", "root/sub/deep/c.webp", "root/f.svg"]
    );
    assert_eq!(images[1].file_name(), "b.JPG");
    assert_eq!(images[1].extension(), "JPG");
    assert_eq!(images[2].file_size(), 4);
}

#[test]
fn scan_is_the_same_set_in_any_enumeration_order() {
    let forward = vec![file("d/a.png", 1), dir(vec![file("d/s/b.jpg", 2)]), file("d/c.svg", 3)];
    let backward = vec![file("d/c.svg", 3), dir(vec![file("d/s/b.jpg", 2)]), file("d/a.png", 1)];
    let mut first = paths(&read_directory(&forward));
    let mut second = paths(&read_directory(&backward));
    assert_eq!(first, vec!["d/a.png", "d/s/b.jpg", "d/c.svg"]);
    assert_eq!(second, vec!["d/c.svg", "d/s/b.jpg", "d/a.png"]);
    first.sort();
    second.sort();
    assert_eq!(first, second);
}

#[test]
fn batch_keeps_input_order_and_skips_missing_paths() {
    let batch = vec![
        file("one.jpeg", 10),
        PathEntry::Missing,
        dir(vec![file("album/two.png", 20), file("album/skip.doc", 30)]),
        file("three.txt", 40),
        PathEntry::Missing,
        file("four.WEBP", 50),
    ];
    let images = read_image_files(&batch);
    assert_eq!(paths(&images), vec!["one.jpeg", "album/two.png", "four.WEBP"]);
    let sizes: Vec<u64> = images.iter().map(|image| image.file_size()).collect();
    assert_eq!(sizes, vec![10, 20, 50]);
}

#[test]
fn batch_equals_the_results_of_its_entries_one_after_another() {
    let first = vec![file("a.png", 1), dir(vec![file("d/b.svg", 2)])];
    let second = vec![PathEntry::Missing, file("c.jpg", 3)];
    let whole = vec![
        file("a.png", 1),
        dir(vec![file("d/b.svg", 2)]),
        PathEntry::Missing,
        file("c.jpg", 3),
    ];
    let mut joined = paths(&read_image_files(&first));
    joined.extend(paths(&read_image_files(&second)));
    assert_eq!(paths(&read_image_files(&whole)), joined);
}

#[test]
fn batch_does_not_remove_repeated_files() {
    let batch = vec![file("album/a.png", 5), dir(vec![file("album/a.png", 5)])];
    let images = read_image_files(&batch);
    assert_eq!(paths(&images), vec!["album/a.png", "album/a.png"]);
}

#[test]
fn files_with_unreadable_metadata_are_skipped() {
    let batch = vec![
        PathEntry::File { path: "gone.png".to_string(), size: None },
        dir(vec![PathEntry::File { path: "d/gone.jpg".to_string(), size: None }, file("d/here.jpg", 9)]),
    ];
    assert_eq!(paths(&read_image_files(&batch)), vec!["d/here.jpg"]);
}

#[test]
fn only_missing_paths_give_nothing() {
    let batch = vec![PathEntry::Missing, PathEntry::Missing];
    assert!(read_image_files(&batch).is_empty());
}
