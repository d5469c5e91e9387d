//! Counting the files of a folder that the worker can group: those whose extension is on a
//! fixed list of document and image formats.
//!
//! The caller lists the folder, and the count is taken of the listing.
use crate::error::{Error, ErrorView};
use crate::path::{base_name, extension, extension_of, file_name};
use crate::text::chars_of;
use vstd::prelude::*;

verus! {

/// One entry of a listed folder.
#[derive(Debug, PartialEq, Eq)]
pub enum FolderEntry {
    /// A file, by its name or its path.
    File(String),
    /// A folder, with its own entries in the order in which they were listed.
    Folder(Vec<FolderEntry>),
    /// An entry, or a folder's listing, that could not be read at `path`; `detail` is what
    /// the system reported.
    Unreadable { path: String, detail: String },
}

/// What became of the attempt to list a folder.
#[derive(Debug, PartialEq, Eq)]
pub enum FolderProbe {
    /// Nothing exists at the path.
    Missing,
    /// The path exists and is not a folder.
    NotADirectory,
    /// The folder could not be resolved; the text is what the system reported.
    Failed(String),
    /// The folder holds these entries, in the order in which they were listed.
    Listing(Vec<FolderEntry>),
}

/// Whether files with the extension `ext` are counted: it is one of the listed document and
/// image formats, in lower case.
pub open spec fn is_counted_extension(ext: Seq<char>) -> bool {
    ||| ext == "pdf"@
    ||| ext == "docx"@
    ||| ext == "txt"@
    ||| ext == "doc"@
    ||| ext == "tex"@
    ||| ext == "epub"@
    ||| ext == "jpg"@
    ||| ext == "jpeg"@
    ||| ext == "png"@
    ||| ext == "gif"@
    ||| ext == "bmp"@
    ||| ext == "tiff"@
    ||| ext == "tif"@
    ||| ext == "webp"@
    ||| ext == "ico"@
    ||| ext == "heif"@
    ||| ext == "heic"@
    ||| ext == "avif"@
    ||| ext == "eps"@
    ||| ext == "dds"@
    ||| ext == "dis"@
    ||| ext == "im"@
    ||| ext == "mpo"@
    ||| ext == "msp"@
    ||| ext == "pxc"@
    ||| ext == "pfm"@
    ||| ext == "ppm"@
    ||| ext == "tga"@
    ||| ext == "spider"@
    ||| ext == "sgi"@
    ||| ext == "xbm"@
    ||| ext == "psd"@
    ||| ext == "svg"@
}

/// Whether the file at `path` is counted: its name has an extension, and the extension is
/// listed.
pub open spec fn is_counted_file(path: Seq<char>) -> bool {
    match base_name(path) {
        Some(name) => match extension(name) {
            Some(ext) => is_counted_extension(ext),
            None => false,
        },
        None => false,
    }
}

/// The number of counted files among the first `count` of `entries`, folders taken with all
/// that they hold; or the failure of the first entry, in listing order and depth first, that
/// could not be read.
pub open spec fn tally(entries: Seq<FolderEntry>, count: nat) -> Result<nat, ErrorView>
    decreases entries, count,
{
    if count == 0 || count > entries.len() {
        Ok(0)
    } else {
        match tally(entries, (count - 1) as nat) {
            Err(failure) => Err(failure),
            Ok(before) => match entries[count - 1] {
                FolderEntry::File(path) => Ok(
                    if is_counted_file(path@) {
                        before + 1
                    } else {
                        before
                    },
                ),
                FolderEntry::Folder(inner) => match tally(inner@, inner@.len()) {
                    Ok(inside) => Ok(before + inside),
                    Err(failure) => Err(failure),
                },
                FolderEntry::Unreadable { path, detail } => Err(
                    ErrorView::Io { path: path@, detail: detail@ },
                ),
            },
        }
    }
}

/// `n`, or the greatest number that the count can report where `n` is above it.
pub open spec fn capped(n: nat) -> i32 {
    if n > i32::MAX {
        i32::MAX
    } else {
        n as i32
    }
}

/// What the count of a folder comes to, given what became of listing it.
pub open spec fn folder_count(folder_path: Seq<char>, probe: FolderProbe) -> Result<
    i32,
    ErrorView,
> {
    match probe {
        FolderProbe::Missing => Err(ErrorView::PathNotFound(folder_path)),
        FolderProbe::NotADirectory => Err(ErrorView::NotADirectory(folder_path)),
        FolderProbe::Failed(detail) => Err(ErrorView::Io { path: folder_path, detail: detail@ }),
        FolderProbe::Listing(entries) => match tally(entries@, entries@.len()) {
            Ok(n) => Ok(capped(n)),
            Err(failure) => Err(failure),
        },
    }
}

/// The mathematical value of the result of a count.
pub open spec fn count_view(result: Result<i32, Error>) -> Result<i32, ErrorView> {
    match result {
        Ok(n) => Ok(n),
        Err(failure) => Err(failure@),
    }
}

fn same_text(left: &Vec<char>, right: &str) -> (same: bool)
    ensures
        same == (left@ == right@),
{
    let other = chars_of(right);
    if left.len() != other.len() {
        return false;
    }
    let mut i: usize = 0;
    while i < left.len()
        invariant
            i <= left.len(),
            left.len() == other.len(),
            other@ == right@,
            forall|j: int| 0 <= j < i ==> left@[j] == other@[j],
        decreases left.len() - i,
    {
        if left[i] != other[i] {
            return false;
        }
        i += 1;
    }
    assert(left@ =~= other@);
    true
}

/// Whether files with the extension `ext` are counted.
pub fn counts_extension(ext: &str) -> (counted: bool)
    ensures
        counted == is_counted_extension(ext@),
{
    let e = chars_of(ext);
    same_text(&e, "pdf") || same_text(&e, "docx") || same_text(&e, "txt") || same_text(&e, "doc")
        || same_text(&e, "tex") || same_text(&e, "epub") || same_text(&e, "jpg") || same_text(
        &e,
        "jpeg",
    ) || same_text(&e, "png") || same_text(&e, "gif") || same_text(&e, "bmp") || same_text(
        &e,
        "tiff",
    ) || same_text(&e, "tif") || same_text(&e, "webp") || same_text(&e, "ico") || same_text(
        &e,
        "heif",
    ) || same_text(&e, "heic") || same_text(&e, "avif") || same_text(&e, "eps") || same_text(
        &e,
        "dds",
    ) || same_text(&e, "dis") || same_text(&e, "im") || same_text(&e, "mpo") || same_text(
        &e,
        "msp",
    ) || same_text(&e, "pxc") || same_text(&e, "pfm") || same_text(&e, "ppm") || same_text(
        &e,
        "tga",
    ) || same_text(&e, "spider") || same_text(&e, "sgi") || same_text(&e, "xbm") || same_text(
        &e,
        "psd",
    ) || same_text(&e, "svg")
}

/// Whether the file at `path` is counted.
pub fn counts_file(path: &str) -> (counted: bool)
    ensures
        counted == is_counted_file(path@),
{
    match file_name(path) {
        Some(name) => match extension_of(name.as_str()) {
            Some(ext) => counts_extension(ext.as_str()),
            None => false,
        },
        None => false,
    }
}

fn capped_sum(left: i32, right: i32) -> (sum: i32)
    requires
        0 <= left,
        0 <= right,
    ensures
        sum == if left + right > i32::MAX {
            i32::MAX
        } else {
            (left + right) as i32
        },
{
    if left > i32::MAX - right {
        i32::MAX
    } else {
        left + right
    }
}

/// The number of counted files in a listing, folders taken with all that they hold, or the
/// failure of the first entry that could not be read. A count above the greatest number
/// that fits is reported as that number.
pub fn count_recursive(entries: &Vec<FolderEntry>) -> (result: Result<i32, Error>)
    ensures
        count_view(result) == match tally(entries@, entries@.len()) {
            Ok(n) => Ok::<i32, ErrorView>(capped(n)),
            Err(failure) => Err(failure),
        },
    decreases entries,
{
    let mut count: i32 = 0;
    let mut i: usize = 0;
    while i < entries.len()
        invariant
            i <= entries.len(),
            tally(entries@, i as nat) is Ok,
            count == capped(tally(entries@, i as nat)->Ok_0),
        decreases entries.len() - i,
    {
        match &entries[i] {
            FolderEntry::File(path) => {
                if counts_file(path.as_str()) {
                    count = capped_sum(count, 1);
                }
            },
            FolderEntry::Folder(inner) => {
                match count_recursive(inner) {
                    Ok(inside) => {
                        count = capped_sum(count, inside);
                    },
                    Err(failure) => {
                        proof {
                            lemma_failure_stays(entries@, (i + 1) as nat, entries@.len());
                        }
                        return Err(failure);
                    },
                }
            },
            FolderEntry::Unreadable { path, detail } => {
                proof {
                    lemma_failure_stays(entries@, (i + 1) as nat, entries@.len());
                }
                return Err(Error::Io { path: path.clone(), detail: detail.clone() });
            },
        }
        i += 1;
    }
    Ok(count)
}

/// The number of counted files in the folder at `folder_path`, given what became of listing
/// it: a path at which nothing exists and a path that is no folder are told apart from a
/// folder that could not be read.
pub fn count_files_in_folder(folder_path: String, probe: FolderProbe) -> (result: Result<
    i32,
    Error,
>)
    ensures
        count_view(result) == folder_count(folder_path@, probe),
{
    match probe {
        FolderProbe::Missing => Err(Error::PathNotFound(folder_path)),
        FolderProbe::NotADirectory => Err(Error::NotADirectory(folder_path)),
        FolderProbe::Failed(detail) => Err(Error::Io { path: folder_path, detail }),
        FolderProbe::Listing(entries) => count_recursive(&entries),
    }
}

/// Once an entry could not be read, looking at more entries reports the same failure.
proof fn lemma_failure_stays(entries: Seq<FolderEntry>, count: nat, more: nat)
    requires
        count <= more <= entries.len(),
        tally(entries, count) is Err,
    ensures
        tally(entries, more) == tally(entries, count),
    decreases more,
{
    if count < more {
        lemma_failure_stays(entries, count, (more - 1) as nat);
    }
}

} // verus!
