use crate::config::VERSION;
use crate::hash::FileHash;
use crate::ignore::{is_ignored, spec_is_ignored};
use crate::media::{spec_detect, MediaType};
use crate::paths::{file_name_chars, lemma_file_name_is_plain, spec_file_name, SEPARATOR};
use crate::text::{chars_of, string_of};
use crate::sidecar::is_current;
use vstd::prelude::*;

verus! {

/// Number of bytes in the unit in which the size limit is given.
pub const MEBIBYTE: u64 = 1048576;

/// What keeps a media file out of the index.
pub struct ScanFilters {
    /// Images whose shorter side has fewer pixels are left out.
    pub min_resolution: Option<u32>,
    /// Files of more whole mebibytes are left out.
    pub max_size_mb: Option<u64>,
    /// Files whose path holds one of these, letter case aside, are left out.
    pub exclude_patterns: Vec<String>,
}

impl ScanFilters {
    pub fn new(
        min_resolution: Option<u32>,
        max_size_mb: Option<u64>,
        exclude_patterns: Vec<String>,
    ) -> (f: Self)
        ensures
            f.min_resolution == min_resolution,
            f.max_size_mb == max_size_mb,
            f.exclude_patterns == exclude_patterns,
    {
        ScanFilters { min_resolution, max_size_mb, exclude_patterns }
    }
}

/// What was found out about one file of the tree.
pub struct FileFacts {
    /// Canonical path of the file.
    pub path: String,
    /// Its size in bytes, where it could be read.
    pub size: Option<u64>,
    /// Width and height in pixels, where the file could be read as an image.
    pub dimensions: Option<(u32, u32)>,
    /// Its content hash, where the file could be read.
    pub hash: Option<FileHash>,
    /// Version of the sidecar stored under that hash, where one could be
    /// read.
    pub sidecar_version: Option<String>,
}

/// A media file that is to be indexed.
pub struct MediaFile {
    pub path: String,
    pub filename: String,
    pub hash: FileHash,
    pub media_type: MediaType,
}

/// What a scan found.
pub struct ScanResult {
    /// The files that have no sidecar of this producer, in the order in which
    /// they were found.
    pub to_process: Vec<MediaFile>,
    /// Number of files with a sidecar of this producer.
    pub already_indexed: usize,
    /// Number of files, among those to process, whose sidecar another
    /// version wrote.
    pub outdated: usize,
    /// Number of files that the filters left out.
    pub filtered: usize,
}

/// What becomes of one file.
pub enum Verdict {
    /// Not a media file, found before under the same path, or unreadable.
    Skipped,
    /// Left out by a filter.
    Filtered,
    /// Has a sidecar of this producer.
    Indexed,
    /// Is to be indexed; `outdated` where another version wrote its sidecar.
    Process { outdated: bool },
}

/// A count kept by a scan.
pub enum Counter {
    Indexed,
    Outdated,
    Filtered,
}

/// Whether the file stood earlier in the list under the same path.
pub open spec fn is_duplicate(files: Seq<FileFacts>, i: int) -> bool {
    exists|j: int| 0 <= j < i && (#[trigger] files[j]).path@ == files[i].path@
}

/// Whether the size of the file, in whole mebibytes, is over the limit.
pub open spec fn too_large(size: Option<u64>, max_size_mb: Option<u64>) -> bool {
    size is Some && max_size_mb is Some && size->0 / MEBIBYTE > max_size_mb->0
}

/// Whether the shorter side of an image is under the limit.
pub open spec fn too_small(
    kind: MediaType,
    dimensions: Option<(u32, u32)>,
    min_resolution: Option<u32>,
) -> bool {
    &&& kind == MediaType::Image
    &&& dimensions matches Some((width, height))
    &&& min_resolution matches Some(limit)
    &&& (width < limit || height < limit)
}

/// Whether a filter leaves the file out.
pub open spec fn is_filtered(facts: FileFacts, kind: MediaType, filters: ScanFilters) -> bool {
    ||| spec_is_ignored(facts.path@, filters.exclude_patterns@)
    ||| too_large(facts.size, filters.max_size_mb)
    ||| too_small(kind, facts.dimensions, filters.min_resolution)
}

/// What becomes of file `i` of the list.
pub open spec fn spec_verdict(files: Seq<FileFacts>, i: int, force: bool, filters: ScanFilters) -> Verdict {
    let facts = files[i];
    if spec_detect(facts.path@) is None || is_duplicate(files, i) {
        Verdict::Skipped
    } else if is_filtered(facts, spec_detect(facts.path@)->0, filters) {
        Verdict::Filtered
    } else if facts.hash is None {
        Verdict::Skipped
    } else if !force && facts.sidecar_version is Some && facts.sidecar_version->0@ == VERSION@ {
        Verdict::Indexed
    } else {
        Verdict::Process { outdated: !force && facts.sidecar_version is Some }
    }
}

/// Whether a verdict adds to a count.
pub open spec fn counts_as(v: Verdict, counter: Counter) -> bool {
    match counter {
        Counter::Indexed => v is Indexed,
        Counter::Filtered => v is Filtered,
        Counter::Outdated => v == (Verdict::Process { outdated: true }),
    }
}

/// Number of files among the first `n` whose verdict adds to the count.
pub open spec fn spec_count(
    files: Seq<FileFacts>,
    force: bool,
    filters: ScanFilters,
    counter: Counter,
    n: int,
) -> int
    decreases n,
{
    if n <= 0 {
        0
    } else {
        spec_count(files, force, filters, counter, n - 1) + if counts_as(
            spec_verdict(files, n - 1, force, filters),
            counter,
        ) {
            1int
        } else {
            0int
        }
    }
}

/// Positions, among the first `n` files, of those that are to be indexed, in
/// ascending order.
pub open spec fn spec_selected(files: Seq<FileFacts>, force: bool, filters: ScanFilters, n: int) -> Seq<int>
    decreases n,
{
    if n <= 0 {
        Seq::empty()
    } else if spec_verdict(files, n - 1, force, filters) is Process {
        spec_selected(files, force, filters, n - 1).push(n - 1)
    } else {
        spec_selected(files, force, filters, n - 1)
    }
}

/// The name under which a file is recorded: the last component of its path,
/// or `unknown` where that is empty or points to the directory above.
pub open spec fn spec_display_name(path: Seq<char>) -> Seq<char> {
    if spec_file_name(path).len() == 0 || spec_file_name(path) == seq!['.', '.'] {
        "unknown"@
    } else {
        spec_file_name(path)
    }
}

/// The name under which a file is recorded names a file in the directory of
/// the file itself: it is not empty, holds no separator and does not point
/// to the directory above.
pub proof fn lemma_display_name_is_plain(path: Seq<char>)
    ensures
        spec_display_name(path).len() > 0,
        !spec_display_name(path).contains(SEPARATOR),
        spec_display_name(path) != seq!['.', '.'],
{
    lemma_file_name_is_plain(path);
    reveal_strlit("unknown");
    let name = spec_display_name(path);
    if name == "unknown"@ {
        assert(name.len() == 7);
        if name.contains(SEPARATOR) {
            let k = choose|k: int| 0 <= k < name.len() && name[k] == SEPARATOR;
            assert(name[k] == '/');
        }
    }
}

/// Whether `file` is the record of the file with these facts.
pub open spec fn records(file: MediaFile, facts: FileFacts) -> bool {
    &&& file.path@ == facts.path@
    &&& file.filename@ == spec_display_name(facts.path@)
    &&& facts.hash is Some
    &&& file.hash@ == facts.hash->0@
    &&& spec_detect(facts.path@) == Some(file.media_type)
}

/// Whether `result` is what a scan of `files` finds.
pub open spec fn is_scan_of(
    result: ScanResult,
    files: Seq<FileFacts>,
    force: bool,
    filters: ScanFilters,
) -> bool {
    let n = files.len() as int;
    let selected = spec_selected(files, force, filters, n);
    &&& result.already_indexed == spec_count(files, force, filters, Counter::Indexed, n)
    &&& result.outdated == spec_count(files, force, filters, Counter::Outdated, n)
    &&& result.filtered == spec_count(files, force, filters, Counter::Filtered, n)
    &&& result.to_process.len() == selected.len()
    &&& forall|k: int| 0 <= k < selected.len() ==> 0 <= #[trigger] selected[k] < n
    &&& forall|k: int|
        0 <= k < selected.len() ==> records(#[trigger] result.to_process[k], files[selected[k]])
}

impl ScanResult {
    /// Number of media files that passed the filters: those to process and
    /// those already indexed.
    pub fn total(&self) -> (n: usize)
        requires
            self.to_process.len() + self.already_indexed <= usize::MAX,
        ensures
            n == self.to_process.len() + self.already_indexed,
    {
        self.to_process.len() + self.already_indexed
    }
}

/// Whether the size of a file, in whole mebibytes, is over the limit.
pub fn exceeds_size(size: Option<u64>, max_size_mb: Option<u64>) -> (r: bool)
    ensures
        r == too_large(size, max_size_mb),
{
    match (size, max_size_mb) {
        (Some(bytes), Some(limit)) => bytes / MEBIBYTE > limit,
        _ => false,
    }
}

/// Whether the shorter side of an image is under the limit. Videos have no
/// such limit.
pub fn below_resolution(
    kind: MediaType,
    dimensions: Option<(u32, u32)>,
    min_resolution: Option<u32>,
) -> (r: bool)
    ensures
        r == too_small(kind, dimensions, min_resolution),
{
    match (kind, dimensions, min_resolution) {
        (MediaType::Image, Some((width, height)), Some(limit)) => width < limit || height < limit,
        _ => false,
    }
}

/// The name under which a file is recorded.
pub fn display_name(path: &str) -> (name: String)
    ensures
        name@ == spec_display_name(path@),
{
    let chars = chars_of(path);
    let name = file_name_chars(chars.as_slice());
    if name.len() == 0 || (name.len() == 2 && name[0] == '.' && name[1] == '.') {
        assert(name.len() == 2 ==> name@ =~= seq!['.', '.']);
        String::from_str("unknown")
    } else {
        assert(name@ != seq!['.', '.']) by {
            if name@ == seq!['.', '.'] {
                assert(name@.len() == 2);
                assert(name@[0] == seq!['.', '.'][0]);
                assert(name@[1] == seq!['.', '.'][1]);
            }
        }
        string_of(name.as_slice())
    }
}

fn seen_before(files: &Vec<FileFacts>, i: usize) -> (r: bool)
    requires
        i < files.len(),
    ensures
        r == is_duplicate(files@, i as int),
{
    let mut j: usize = 0;
    while j < i
        invariant
            j <= i < files.len(),
            forall|k: int| 0 <= k < j ==> (#[trigger] files[k]).path@ != files[i as int].path@,
        decreases i - j,
    {
        if files[j].path == files[i].path {
            return true;
        }
        j += 1;
    }
    false
}

/// Decides what becomes of file `i` of the list.
pub fn verdict(files: &Vec<FileFacts>, i: usize, force: bool, filters: &ScanFilters) -> (v: Verdict)
    requires
        i < files.len(),
    ensures
        v == spec_verdict(files@, i as int, force, *filters),
{
    let facts = &files[i];
    let kind = match MediaType::detect(facts.path.as_str()) {
        Some(kind) => kind,
        None => {
            return Verdict::Skipped;
        },
    };
    if seen_before(files, i) {
        return Verdict::Skipped;
    }
    if is_ignored(facts.path.as_str(), &filters.exclude_patterns) || exceeds_size(
        facts.size,
        filters.max_size_mb,
    ) || below_resolution(kind, facts.dimensions, filters.min_resolution) {
        return Verdict::Filtered;
    }
    if facts.hash.is_none() {
        return Verdict::Skipped;
    }
    match &facts.sidecar_version {
        Some(version) => {
            if force {
                Verdict::Process { outdated: false }
            } else if is_current(version) {
                Verdict::Indexed
            } else {
                Verdict::Process { outdated: true }
            }
        },
        None => Verdict::Process { outdated: false },
    }
}

/// Sorts the files of a tree into those to index, those already indexed and
/// those left out. `files` holds every file that the walk found and did not
/// ignore, in the order of the walk, each once for every way it was reached.
pub fn scan_directory(files: &Vec<FileFacts>, force: bool, filters: &ScanFilters) -> (result:
    ScanResult)
    ensures
        is_scan_of(result, files@, force, *filters),
        result.to_process.len() + result.already_indexed + result.filtered <= files.len(),
        result.outdated <= result.to_process.len(),
{
    let mut to_process: Vec<MediaFile> = Vec::new();
    let mut already_indexed: usize = 0;
    let mut outdated: usize = 0;
    let mut filtered: usize = 0;
    let mut i: usize = 0;
    while i < files.len()
        invariant
            i <= files.len(),
            already_indexed == spec_count(files@, force, *filters, Counter::Indexed, i as int),
            outdated == spec_count(files@, force, *filters, Counter::Outdated, i as int),
            filtered == spec_count(files@, force, *filters, Counter::Filtered, i as int),
            to_process.len() == spec_selected(files@, force, *filters, i as int).len(),
            to_process.len() + already_indexed + filtered <= i,
            outdated <= to_process.len(),
            forall|k: int|
                0 <= k < to_process.len() ==> 0 <= #[trigger] spec_selected(
                    files@,
                    force,
                    *filters,
                    i as int,
                )[k] < i,
            forall|k: int|
                0 <= k < to_process.len() ==> records(
                    #[trigger] to_process[k],
                    files[spec_selected(files@, force, *filters, i as int)[k]],
                ),
        decreases files.len() - i,
    {
        let v = verdict(files, i, force, filters);
        let ghost before = spec_selected(files@, force, *filters, i as int);
        let ghost after = spec_selected(files@, force, *filters, i + 1);
        let ghost listed = to_process@;
        match v {
            Verdict::Skipped => {},
            Verdict::Filtered => {
                filtered += 1;
            },
            Verdict::Indexed => {
                already_indexed += 1;
            },
            Verdict::Process { outdated: stale } => {
                let facts = &files[i];
                let kind = MediaType::detect(facts.path.as_str());
                match (&facts.hash, kind) {
                    (Some(hash), Some(media_type)) => {
                        to_process.push(
                            MediaFile {
                                path: facts.path.clone(),
                                filename: display_name(facts.path.as_str()),
                                hash: hash.clone(),
                                media_type,
                            },
                        );
                        if stale {
                            outdated += 1;
                        }
                    },
                    _ => {
                        assert(false);
                    },
                }
            },
        }
        proof {
            assert forall|k: int| 0 <= k < to_process.len() implies 0 <= #[trigger] after[k] < i
                + 1 by {
                if k < listed.len() {
                    assert(after[k] == before[k]);
                }
            }
            assert forall|k: int| 0 <= k < to_process.len() implies records(
                #[trigger] to_process[k],
                files[after[k]],
            ) by {
                if k < listed.len() {
                    assert(to_process[k] == listed[k]);
                    assert(after[k] == before[k]);
                } else {
                    assert(after[k] == i);
                }
            }
        }
        i += 1;
    }
    ScanResult { to_process, already_indexed, outdated, filtered }
}

/// The files to index are files of the list, each under a path of its own,
/// in the order of the list.
pub proof fn lemma_selected_once(files: Seq<FileFacts>, force: bool, filters: ScanFilters, n: int)
    requires
        0 <= n <= files.len(),
    ensures
        forall|k: int|
            0 <= k < spec_selected(files, force, filters, n).len() ==> 0 <= #[trigger] spec_selected(
                files,
                force,
                filters,
                n,
            )[k] < n,
        forall|k: int, l: int|
            0 <= k < l < spec_selected(files, force, filters, n).len() ==> {
                let a = #[trigger] spec_selected(files, force, filters, n)[k];
                let b = #[trigger] spec_selected(files, force, filters, n)[l];
                a < b && files[a].path@ != files[b].path@
            },
    decreases n,
{
    if n > 0 {
        lemma_selected_once(files, force, filters, n - 1);
        let before = spec_selected(files, force, filters, n - 1);
        let after = spec_selected(files, force, filters, n);
        if spec_verdict(files, n - 1, force, filters) is Process {
            assert(!is_duplicate(files, n - 1));
            assert forall|k: int, l: int| 0 <= k < l < after.len() implies {
                let a = #[trigger] after[k];
                let b = #[trigger] after[l];
                a < b && files[a].path@ != files[b].path@
            } by {
                if l < before.len() {
                    assert(after[k] == before[k] && after[l] == before[l]);
                } else {
                    assert(after[k] == before[k]);
                    assert(after[l] == n - 1);
                    let a = before[k];
                    assert(0 <= a < n - 1);
                    assert(files[a].path@ != files[n - 1].path@);
                }
            }
        }
    }
}

/// A tree whose every file is a media file under a path of its own, passes
/// the filters and has a sidecar of this producer holds nothing to index:
/// a scan that is not forced counts every file as indexed.
pub proof fn lemma_rescan_finds_all_indexed(files: Seq<FileFacts>, filters: ScanFilters, n: int)
    requires
        0 <= n <= files.len(),
        forall|i: int|
            0 <= i < files.len() ==> {
                let facts = #[trigger] files[i];
                &&& spec_detect(facts.path@) is Some
                &&& !is_duplicate(files, i)
                &&& !is_filtered(facts, spec_detect(facts.path@)->0, filters)
                &&& facts.hash is Some
                &&& facts.sidecar_version is Some
                &&& facts.sidecar_version->0@ == VERSION@
            },
    ensures
        spec_selected(files, false, filters, n).len() == 0,
        spec_count(files, false, filters, Counter::Indexed, n) == n,
        spec_count(files, false, filters, Counter::Outdated, n) == 0,
        spec_count(files, false, filters, Counter::Filtered, n) == 0,
    decreases n,
{
    if n > 0 {
        lemma_rescan_finds_all_indexed(files, filters, n - 1);
        assert(spec_verdict(files, n - 1, false, filters) is Indexed) by {
            let facts = files[n - 1];
        }
    }
}

} // verus!
