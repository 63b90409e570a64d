use crate::config::{SIDECAR_DIR, SIDECAR_EXT};
use crate::hash::FileHash;
use crate::ignore::{is_ignored, spec_is_ignored};
use crate::paths::{extension_chars, file_name_chars, spec_extension, spec_file_name};
use crate::text::{chars_of, same_chars};
use vstd::prelude::*;

verus! {

/// What a walk does with an entry of a directory.
#[derive(Clone, Copy, Debug, PartialEq, Eq, Structural)]
pub enum WalkStep {
    /// The entry is a sidecar directory: its sidecar files are collected.
    Collect,
    /// The entry is another directory and the walk goes into it.
    Descend,
    /// The entry is a file: it is looked at as a media file.
    Examine,
    /// The entry is passed over.
    Skip,
}

/// Whether the last component of a path is the name of the sidecar
/// directory.
pub open spec fn spec_is_sidecar_dir(path: Seq<char>) -> bool {
    spec_file_name(path) == SIDECAR_DIR@
}

/// Whether a path has the extension of sidecar files, in just these letters.
pub open spec fn spec_is_sidecar_file(path: Seq<char>) -> bool {
    spec_extension(path) == Some(SIDECAR_EXT@)
}

/// Whether the last component of a path is the name of the sidecar
/// directory.
pub fn is_sidecar_dir(path: &str) -> (r: bool)
    ensures
        r == spec_is_sidecar_dir(path@),
{
    let chars = chars_of(path);
    let name = file_name_chars(chars.as_slice());
    let wanted = chars_of(SIDECAR_DIR);
    same_chars(name.as_slice(), wanted.as_slice())
}

/// Whether a path has the extension of sidecar files.
pub fn is_sidecar_file(path: &str) -> (r: bool)
    ensures
        r == spec_is_sidecar_file(path@),
{
    let chars = chars_of(path);
    match extension_chars(chars.as_slice()) {
        Some(ext) => {
            let wanted = chars_of(SIDECAR_EXT);
            same_chars(ext.as_slice(), wanted.as_slice())
        },
        None => false,
    }
}

/// Decides what the walk for sidecars does with an entry: a sidecar
/// directory is collected wherever it is met, another directory is entered
/// by a recursive walk only, and files are passed over.
pub fn sidecar_walk_step(path: &str, is_directory: bool, recursive: bool) -> (step: WalkStep)
    ensures
        step == if !is_directory {
            WalkStep::Skip
        } else if spec_is_sidecar_dir(path@) {
            WalkStep::Collect
        } else if recursive {
            WalkStep::Descend
        } else {
            WalkStep::Skip
        },
{
    if !is_directory {
        WalkStep::Skip
    } else if is_sidecar_dir(path) {
        WalkStep::Collect
    } else if recursive {
        WalkStep::Descend
    } else {
        WalkStep::Skip
    }
}

/// Decides what the walk for media files does with an entry of a
/// directory. `ignored` holds the patterns of the ignore file of that
/// directory. An entry that a pattern matches is passed over, a directory
/// with all that lies in it; the sidecar directory is never entered; another
/// directory is entered by a recursive walk only; files are examined.
pub fn media_walk_step(path: &str, is_directory: bool, recursive: bool, ignored: &Vec<String>) -> (step:
    WalkStep)
    ensures
        step == if spec_is_ignored(path@, ignored@) || spec_is_sidecar_dir(path@) {
            WalkStep::Skip
        } else if !is_directory {
            WalkStep::Examine
        } else if recursive {
            WalkStep::Descend
        } else {
            WalkStep::Skip
        },
{
    if is_ignored(path, ignored) || is_sidecar_dir(path) {
        WalkStep::Skip
    } else if !is_directory {
        WalkStep::Examine
    } else if recursive {
        WalkStep::Descend
    } else {
        WalkStep::Skip
    }
}

/// Whether entry `k` of the list holds the wanted hash.
pub open spec fn holds_hash(hashes: Seq<Option<FileHash>>, k: int, wanted: Seq<char>) -> bool {
    hashes[k] matches Some(h) && h@ == wanted
}

/// Finds the first of a list of hashes that is the wanted one. The list
/// holds the hashes of the media files of a directory, in the order in
/// which the directory lists them, `None` for a file that could not be
/// read.
pub fn find_file_by_hash(hashes: &Vec<Option<FileHash>>, wanted: &FileHash) -> (found: Option<usize>)
    ensures
        match found {
            Some(at) => at < hashes.len() && holds_hash(hashes@, at as int, wanted@) && forall|
                k: int,
            | 0 <= k < at ==> !#[trigger] holds_hash(hashes@, k, wanted@),
            None => forall|k: int|
                0 <= k < hashes.len() ==> !#[trigger] holds_hash(hashes@, k, wanted@),
        },
{
    let mut at: usize = 0;
    while at < hashes.len()
        invariant
            at <= hashes.len(),
            forall|k: int| 0 <= k < at ==> !#[trigger] holds_hash(hashes@, k, wanted@),
        decreases hashes.len() - at,
    {
        let hit = match &hashes[at] {
            Some(h) => h.same(wanted),
            None => false,
        };
        if hit {
            return Some(at);
        }
        at += 1;
    }
    None
}

} // verus!
