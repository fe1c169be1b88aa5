//! Flattening a listing of files and directories into the images it holds.
//!
//! The caller reads the file system and describes what it found as a tree of
//! [`PathEntry`] values; the functions here decide which entries are images
//! and in which order they are reported.

use vstd::prelude::*;
use crate::info::{classified, get_image_info_from_path, records, ImageInfo, ImageRecord};

verus! {

/// What the file system holds at one path.
#[derive(Debug)]
pub enum PathEntry {
    /// A regular file at `path`; `size` is the length its metadata reported,
    /// or `None` where the metadata could not be read.
    File { path: String, size: Option<u64> },
    /// A directory, with the entries that could be read from it in the order
    /// the file system enumerated them. A directory that could not be read
    /// has no entries.
    Directory { entries: Vec<PathEntry> },
    /// Neither a regular file nor a directory: the path does not exist or
    /// names something else.
    Missing,
}

/// A regular file as a listing describes it: its path and the length that
/// its metadata reported, if any.
pub type FileFacts = (Seq<char>, Option<u64>);

/// The images that one regular file contributes: its record where it
/// classifies as a supported image, and nothing otherwise.
pub open spec fn file_images(file: FileFacts) -> Seq<ImageRecord> {
    match classified(file.0, file.1) {
        Some(record) => seq![record],
        None => Seq::empty(),
    }
}

/// The images among a sequence of regular files, in order.
pub open spec fn images_among(files: Seq<FileFacts>) -> Seq<ImageRecord>
    decreases files.len(),
{
    if files.len() == 0 {
        Seq::empty()
    } else {
        images_among(files.drop_last()) + file_images(files.last())
    }
}

/// The regular files that a listing holds at every depth, in the order in
/// which a depth-first walk meets them.
pub open spec fn listing_files(entries: Seq<PathEntry>) -> Seq<FileFacts>
    decreases entries,
{
    if entries.len() == 0 {
        Seq::empty()
    } else {
        listing_files(entries.drop_last()) + entry_files(entries.last())
    }
}

/// The regular files that an entry is or holds at every depth.
pub open spec fn entry_files(entry: PathEntry) -> Seq<FileFacts>
    decreases entry,
{
    match entry {
        PathEntry::File { path, size } => seq![(path@, size)],
        PathEntry::Directory { entries } => listing_files(entries@),
        PathEntry::Missing => Seq::empty(),
    }
}

/// The images that one entry contributes: the record of a file that is a
/// supported image, the images of a directory's listing at every depth, and
/// nothing for anything else.
pub open spec fn entry_images(entry: PathEntry) -> Seq<ImageRecord>
    decreases entry,
{
    match entry {
        PathEntry::File { path, size } => file_images((path@, size)),
        PathEntry::Directory { entries } => listing_images(entries@),
        PathEntry::Missing => Seq::empty(),
    }
}

/// The images of a listing: those of each entry, one entry after another.
pub open spec fn listing_images(entries: Seq<PathEntry>) -> Seq<ImageRecord>
    decreases entries,
{
    if entries.len() == 0 {
        Seq::empty()
    } else {
        listing_images(entries.drop_last()) + entry_images(entries.last())
    }
}

/// The views of a sequence with one more record are the earlier views with
/// that record's view added.
proof fn lemma_records_push(images: Seq<ImageInfo>, image: ImageInfo)
    ensures
        records(images.push(image)) == records(images).push(image@),
{
    assert(records(images.push(image)) =~= records(images).push(image@));
}

/// The views of two sequences joined are their views joined.
proof fn lemma_records_concat(first: Seq<ImageInfo>, second: Seq<ImageInfo>)
    ensures
        records(first + second) == records(first) + records(second),
{
    assert(records(first + second) =~= records(first) + records(second));
}

/// The images of the first `i + 1` entries are those of the first `i`
/// followed by those of entry `i`.
proof fn lemma_listing_step(entries: Seq<PathEntry>, i: int)
    requires
        0 <= i < entries.len(),
    ensures
        listing_images(entries.take(i + 1)) == listing_images(entries.take(i)) + entry_images(
            entries[i],
        ),
{
    assert(entries.take(i + 1).drop_last() =~= entries.take(i));
}

/// The number of regular files that a listing holds, at any depth, and that
/// are supported images.
pub open spec fn listing_image_count(entries: Seq<PathEntry>) -> nat
    decreases entries,
{
    if entries.len() == 0 {
        0
    } else {
        listing_image_count(entries.drop_last()) + entry_image_count(entries.last())
    }
}

/// The number of supported images that an entry is or holds at any depth.
pub open spec fn entry_image_count(entry: PathEntry) -> nat
    decreases entry,
{
    match entry {
        PathEntry::File { path, size } => if classified(path@, size) is Some {
            1
        } else {
            0
        },
        PathEntry::Directory { entries } => listing_image_count(entries@),
        PathEntry::Missing => 0,
    }
}

/// A listing made of two parts yields the images of the first part followed
/// by the images of the second: results are merged in input order.
pub proof fn lemma_listing_concat(first: Seq<PathEntry>, second: Seq<PathEntry>)
    ensures
        listing_images(first + second) == listing_images(first) + listing_images(second),
    decreases second.len(),
{
    if second.len() == 0 {
        assert(first + second =~= first);
        assert(listing_images(first) + listing_images(second) =~= listing_images(first));
    } else {
        lemma_listing_concat(first, second.drop_last());
        assert((first + second).drop_last() =~= first + second.drop_last());
        assert((first + second).last() == second.last());
        assert(listing_images(first + second) =~= listing_images(first) + listing_images(second));
    }
}

/// A listing of one entry yields what that entry contributes: the record of
/// a file that classifies as an image, the scan of a directory, and nothing
/// for a path that is neither.
pub proof fn lemma_listing_single(entry: PathEntry)
    ensures
        listing_images(seq![entry]) == entry_images(entry),
{
    let single = seq![entry];
    assert(single.len() == 1);
    assert(single.last() == entry);
    assert(single.drop_last() =~= Seq::<PathEntry>::empty());
    assert(listing_images(single.drop_last()) =~= Seq::<ImageRecord>::empty());
    assert(listing_images(single) =~= entry_images(entry));
}

/// A path that is neither a file nor a directory changes nothing: with it or
/// without it the listing yields the same images.
pub proof fn lemma_missing_is_skipped(first: Seq<PathEntry>, second: Seq<PathEntry>)
    ensures
        listing_images(first + seq![PathEntry::Missing] + second) == listing_images(first + second),
{
    lemma_listing_concat(first + seq![PathEntry::Missing], second);
    lemma_listing_concat(first, seq![PathEntry::Missing]);
    lemma_listing_single(PathEntry::Missing);
    lemma_listing_concat(first, second);
    assert(listing_images(first) + Seq::<ImageRecord>::empty() =~= listing_images(first));
}

/// The images among two runs of files, one after the other, are the images
/// of the first run followed by those of the second.
pub proof fn lemma_images_among_concat(first: Seq<FileFacts>, second: Seq<FileFacts>)
    ensures
        images_among(first + second) == images_among(first) + images_among(second),
    decreases second.len(),
{
    if second.len() == 0 {
        assert(first + second =~= first);
        assert(images_among(first) + images_among(second) =~= images_among(first));
    } else {
        lemma_images_among_concat(first, second.drop_last());
        assert((first + second).drop_last() =~= first + second.drop_last());
        assert((first + second).last() == second.last());
        assert(images_among(first + second) =~= images_among(first) + images_among(second));
    }
}

/// Scanning is classification of the files held: a listing yields exactly
/// the images among the regular files it holds at every depth, in the order
/// of the walk.
pub proof fn lemma_listing_images_from_files(entries: Seq<PathEntry>)
    ensures
        listing_images(entries) == images_among(listing_files(entries)),
    decreases entries,
{
    if entries.len() > 0 {
        lemma_listing_images_from_files(entries.drop_last());
        lemma_entry_images_from_files(entries.last());
        lemma_images_among_concat(
            listing_files(entries.drop_last()),
            entry_files(entries.last()),
        );
    }
}

/// An entry yields exactly the images among the regular files it is or
/// holds at every depth.
pub proof fn lemma_entry_images_from_files(entry: PathEntry)
    ensures
        entry_images(entry) == images_among(entry_files(entry)),
    decreases entry,
{
    match entry {
        PathEntry::File { path, size } => {
            let single = seq![(path@, size)];
            assert(single.drop_last() =~= Seq::<FileFacts>::empty());
            assert(images_among(single.drop_last()) =~= Seq::<ImageRecord>::empty());
            assert(images_among(single) =~= file_images(single.last()));
        },
        PathEntry::Directory { entries } => {
            lemma_listing_images_from_files(entries@);
        },
        PathEntry::Missing => {},
    }
}

/// The images among a collection of files do not depend on the order of the
/// files: two runs that hold the same files equally often yield the same
/// images equally often.
pub proof fn lemma_images_among_any_order(first: Seq<FileFacts>, second: Seq<FileFacts>)
    requires
        first.to_multiset() == second.to_multiset(),
    ensures
        images_among(first).to_multiset() == images_among(second).to_multiset(),
    decreases first.len(),
{
    first.to_multiset_ensures();
    second.to_multiset_ensures();
    if first.len() == 0 {
        assert(second.len() == 0);
    } else {
        let file = first.last();
        let rest = first.drop_last();
        assert(first =~= rest.push(file));
        rest.to_multiset_ensures();
        assert(first.to_multiset() =~= rest.to_multiset().insert(file));
        assert(first.to_multiset().count(file) > 0);
        assert(second.contains(file));
        let j = choose|j: int| 0 <= j < second.len() && second[j] == file;
        let others = second.remove(j);
        assert(others.to_multiset() =~= second.to_multiset().remove(file));
        assert(others.to_multiset() =~= rest.to_multiset());
        lemma_images_among_any_order(rest, others);
        let before = second.take(j);
        let after = second.skip(j + 1);
        assert(others =~= before + after);
        assert(second =~= before + seq![file] + after);
        lemma_images_among_concat(before, after);
        lemma_images_among_concat(before + seq![file], after);
        lemma_images_among_concat(before, seq![file]);
        assert(seq![file].drop_last() =~= Seq::<FileFacts>::empty());
        assert(images_among(seq![file].drop_last()) =~= Seq::<ImageRecord>::empty());
        assert(images_among(seq![file]) =~= file_images(file));
        let a = images_among(before);
        let x = file_images(file);
        let b = images_among(after);
        vstd::seq_lib::lemma_multiset_commutative(a, b);
        vstd::seq_lib::lemma_multiset_commutative(a, x);
        vstd::seq_lib::lemma_multiset_commutative(a + x, b);
        vstd::seq_lib::lemma_multiset_commutative(images_among(rest), x);
        assert(images_among(second).to_multiset() =~= a.to_multiset().add(x.to_multiset()).add(
            b.to_multiset(),
        ));
        assert(images_among(others).to_multiset() =~= a.to_multiset().add(b.to_multiset()));
        assert(images_among(first).to_multiset() =~= images_among(rest).to_multiset().add(
            x.to_multiset(),
        ));
        assert(images_among(first).to_multiset() =~= images_among(second).to_multiset());
    }
}

/// Scanning does not depend on the order of traversal: two listings that
/// hold the same regular files, however ordered and nested, yield the same
/// images, each as often in one result as in the other.
pub proof fn lemma_same_files_same_images(first: Seq<PathEntry>, second: Seq<PathEntry>)
    requires
        listing_files(first).to_multiset() == listing_files(second).to_multiset(),
    ensures
        listing_images(first).to_multiset() == listing_images(second).to_multiset(),
{
    lemma_listing_images_from_files(first);
    lemma_listing_images_from_files(second);
    lemma_images_among_any_order(listing_files(first), listing_files(second));
}

/// Every image file is reported once: a listing yields as many records as it
/// holds supported images at all depths.
pub proof fn lemma_listing_count(entries: Seq<PathEntry>)
    ensures
        listing_images(entries).len() == listing_image_count(entries),
    decreases entries,
{
    if entries.len() > 0 {
        lemma_listing_count(entries.drop_last());
        lemma_entry_count(entries.last());
    }
}

/// An entry yields as many records as it is or holds supported images.
pub proof fn lemma_entry_count(entry: PathEntry)
    ensures
        entry_images(entry).len() == entry_image_count(entry),
    decreases entry,
{
    match entry {
        PathEntry::Directory { entries } => {
            lemma_listing_count(entries@);
        },
        _ => {},
    }
}

/// Nothing is omitted and nothing is added: a record is among the images of
/// a run of files exactly when it is the record of one of those files.
pub proof fn lemma_images_among_exact(files: Seq<FileFacts>, record: ImageRecord)
    ensures
        images_among(files).contains(record) <==> exists|file: FileFacts| #[trigger]
            files.contains(file) && classified(file.0, file.1) == Some(record),
    decreases files.len(),
{
    if files.len() > 0 {
        let rest = files.drop_last();
        let last = files.last();
        let earlier = images_among(rest);
        let latest = file_images(last);
        lemma_images_among_exact(rest, record);
        if images_among(files).contains(record) {
            let k = choose|k: int|
                0 <= k < (earlier + latest).len() && (earlier + latest)[k] == record;
            if k < earlier.len() {
                assert(earlier[k] == record);
                let file = choose|file: FileFacts| #[trigger]
                    rest.contains(file) && classified(file.0, file.1) == Some(record);
                let j = choose|j: int| 0 <= j < rest.len() && rest[j] == file;
                assert(files[j] == file);
                assert(files.contains(file) && classified(file.0, file.1) == Some(record));
            } else {
                assert(latest[k - earlier.len()] == record);
                assert(files[files.len() - 1] == last);
                assert(files.contains(last) && classified(last.0, last.1) == Some(record));
            }
        }
        if exists|file: FileFacts| #[trigger]
            files.contains(file) && classified(file.0, file.1) == Some(record) {
            let file = choose|file: FileFacts| #[trigger]
                files.contains(file) && classified(file.0, file.1) == Some(record);
            let j = choose|j: int| 0 <= j < files.len() && files[j] == file;
            if j < rest.len() {
                assert(rest[j] == file);
                assert(rest.contains(file) && classified(file.0, file.1) == Some(record));
                let k = choose|k: int| 0 <= k < earlier.len() && earlier[k] == record;
                assert((earlier + latest)[k] == record);
            } else {
                assert(latest[0] == record);
                assert((earlier + latest)[earlier.len() as int] == record);
            }
        }
    }
}

/// Scanning returns exactly the image files at every depth: a record is in
/// the result exactly when it is the record of a regular file that the
/// listing holds, at whatever depth.
pub proof fn lemma_listing_exact(entries: Seq<PathEntry>, record: ImageRecord)
    ensures
        listing_images(entries).contains(record) <==> exists|file: FileFacts| #[trigger]
            listing_files(entries).contains(file) && classified(file.0, file.1) == Some(
                record,
            ),
{
    lemma_listing_images_from_files(entries);
    lemma_images_among_exact(listing_files(entries), record);
}

/// Every record that a listing yields has an extension that names a
/// supported image format, in whatever letter case the path writes it.
pub proof fn lemma_listing_yields_images(entries: Seq<PathEntry>, record: ImageRecord)
    requires
        listing_images(entries).contains(record),
    ensures
        record.is_image(),
{
    lemma_listing_exact(entries, record);
}

/// Scans a directory whose listing is `entries`: the images among its files
/// and, depth first, those of its subdirectories, in listing order.
pub fn read_directory(entries: &Vec<PathEntry>) -> (images: Vec<ImageInfo>)
    ensures
        records(images@) == listing_images(entries@),
    decreases entries,
{
    let mut images: Vec<ImageInfo> = Vec::new();
    let mut i: usize = 0;
    assert(records(images@) =~= listing_images(entries@.take(0)));
    while i < entries.len()
        invariant
            i <= entries.len(),
            records(images@) == listing_images(entries@.take(i as int)),
        decreases entries.len() - i,
    {
        proof {
            lemma_listing_step(entries@, i as int);
        }
        match &entries[i] {
            PathEntry::File { path, size } => {
                if let Some(image) = get_image_info_from_path(path.as_str(), *size) {
                    proof {
                        lemma_records_push(images@, image);
                    }
                    images.push(image);
                }
            },
            PathEntry::Directory { entries: children } => {
                let mut found = read_directory(children);
                proof {
                    lemma_records_concat(images@, found@);
                }
                images.append(&mut found);
            },
            PathEntry::Missing => {},
        }
        i += 1;
    }
    assert(entries@.take(i as int) =~= entries@);
    images
}

/// Resolves a batch of paths: each file is classified, each directory is
/// scanned, and a path that is neither is passed over. The results follow
/// one another in the order of the paths, with nothing merged or removed.
pub fn read_image_files(paths: &Vec<PathEntry>) -> (images: Vec<ImageInfo>)
    ensures
        records(images@) == listing_images(paths@),
{
    let mut images: Vec<ImageInfo> = Vec::new();
    let mut i: usize = 0;
    assert(records(images@) =~= listing_images(paths@.take(0)));
    while i < paths.len()
        invariant
            i <= paths.len(),
            records(images@) == listing_images(paths@.take(i as int)),
        decreases paths.len() - i,
    {
        proof {
            lemma_listing_step(paths@, i as int);
        }
        match &paths[i] {
            PathEntry::File { path, size } => {
                if let Some(image) = get_image_info_from_path(path.as_str(), *size) {
                    proof {
                        lemma_records_push(images@, image);
                    }
                    images.push(image);
                }
            },
            PathEntry::Directory { entries } => {
                let mut found = read_directory(entries);
                proof {
                    lemma_records_concat(images@, found@);
                }
                images.append(&mut found);
            },
            PathEntry::Missing => {},
        }
        i += 1;
    }
    assert(paths@.take(i as int) =~= paths@);
    images
}

} // verus!
