use crate::media::{spec_detect, MediaType};
use crate::scan::{below_resolution, exceeds_size, too_large, too_small};
use vstd::prelude::*;

verus! {

/// Milliseconds without an event after which the events of a path are
/// delivered.
pub const DEBOUNCE_MS: u64 = 1000;

/// Milliseconds between two looks at a file that is being written.
pub const POLL_MS: u64 = 500;

/// Number of looks at a file after which it is given up as busy.
pub const MAX_ATTEMPTS: u32 = 20;

/// Number of looks in a row that must repeat the size seen before.
pub const STABLE_LOOKS: u32 = 2;

/// What to do with a delivered event.
#[derive(Clone, Copy, Debug, PartialEq, Eq, Structural)]
pub enum Expansion {
    /// The path is a file: it is queued itself.
    File,
    /// The path is a directory: the files directly inside it are queued.
    Children,
    /// The path is a directory and the watch is not recursive: nothing is
    /// queued.
    Nothing,
}

/// What the worker does next with a file that may still be written.
#[derive(Clone, Copy, Debug, PartialEq, Eq, Structural)]
pub enum Step {
    /// Wait for the poll interval and look at the file again.
    Wait,
    /// Try to open the file for reading.
    TryOpen,
    /// The file is whole and can be read: index it.
    Ready,
    /// The file never came to rest: report it as busy.
    GiveUp,
}

/// What the worker knows of a file that may still be written.
#[derive(Clone, Copy, Debug)]
pub struct Stability {
    last_size: Option<u64>,
    stable: u32,
    attempts: u32,
}

/// The worker's knowledge of a file, as contracts speak of it.
pub struct StabilityView {
    /// The size seen at the last look that could read one.
    pub last_size: Option<u64>,
    /// Number of looks in a row, up to now, that repeated the size seen
    /// before.
    pub stable: nat,
    /// Number of looks so far.
    pub attempts: nat,
}

impl View for Stability {
    type V = StabilityView;

    closed spec fn view(&self) -> StabilityView {
        StabilityView {
            last_size: self.last_size,
            stable: self.stable as nat,
            attempts: self.attempts as nat,
        }
    }
}

/// The number of looks in a row that repeat the size before them, after a
/// look that found `probe`.
pub open spec fn spec_stable_after(before: StabilityView, probe: Option<u64>) -> nat {
    match probe {
        Some(size) => if size > 0 && before.last_size == Some(size) {
            before.stable + 1
        } else {
            0
        },
        None => 0,
    }
}

/// What the worker knows after a look that found `probe`.
pub open spec fn spec_observe(before: StabilityView, probe: Option<u64>) -> StabilityView {
    if before.attempts >= MAX_ATTEMPTS {
        before
    } else {
        StabilityView {
            last_size: match probe {
                Some(size) => Some(size),
                None => before.last_size,
            },
            stable: spec_stable_after(before, probe),
            attempts: before.attempts + 1,
        }
    }
}

/// What the worker does after a look.
pub open spec fn spec_step_after_look(before: StabilityView, after: StabilityView) -> Step {
    if before.attempts >= MAX_ATTEMPTS {
        Step::GiveUp
    } else if after.stable >= STABLE_LOOKS {
        Step::TryOpen
    } else if after.attempts >= MAX_ATTEMPTS {
        Step::GiveUp
    } else {
        Step::Wait
    }
}

/// What the worker does after it tried to open the file.
pub open spec fn spec_step_after_open(state: StabilityView, opened: bool) -> Step {
    if opened {
        Step::Ready
    } else if state.attempts >= MAX_ATTEMPTS {
        Step::GiveUp
    } else {
        Step::Wait
    }
}

impl Stability {
    #[verifier::type_invariant]
    spec fn well_formed(self) -> bool {
        self.stable <= self.attempts <= MAX_ATTEMPTS
    }

    /// What is known of a file that has not been looked at.
    pub fn new() -> (s: Self)
        ensures
            s@ == (StabilityView { last_size: None, stable: 0, attempts: 0 }),
    {
        Stability { last_size: None, stable: 0, attempts: 0 }
    }

    /// Takes in one look at the file: `probe` is its size, or `None` where
    /// the file could not be examined. A look repeats the one before it
    /// where both found the same size and that size is not zero. After two
    /// such looks in a row the file is to be opened; after twenty looks in
    /// all it is given up.
    pub fn observe(&mut self, probe: Option<u64>) -> (step: Step)
        ensures
            final(self)@ == spec_observe(old(self)@, probe),
            step == spec_step_after_look(old(self)@, final(self)@),
    {
        proof {
            use_type_invariant(&*self);
        }
        if self.attempts >= MAX_ATTEMPTS {
            return Step::GiveUp;
        }
        let stable = match probe {
            Some(size) => {
                let repeats = size > 0 && match self.last_size {
                    Some(last) => last == size,
                    None => false,
                };
                if repeats {
                    self.stable + 1
                } else {
                    0
                }
            },
            None => 0,
        };
        let last_size = match probe {
            Some(size) => Some(size),
            None => self.last_size,
        };
        let attempts = self.attempts + 1;
        *self = Stability { last_size, stable, attempts };
        if stable >= STABLE_LOOKS {
            Step::TryOpen
        } else if attempts >= MAX_ATTEMPTS {
            Step::GiveUp
        } else {
            Step::Wait
        }
    }

    /// Takes in the outcome of an attempt to open the file.
    pub fn opened(&self, opened: bool) -> (step: Step)
        ensures
            step == spec_step_after_open(self@, opened),
    {
        if opened {
            Step::Ready
        } else if self.attempts >= MAX_ATTEMPTS {
            Step::GiveUp
        } else {
            Step::Wait
        }
    }

    /// Number of looks so far.
    pub fn attempts(&self) -> (n: u32)
        ensures
            n == self@.attempts,
            n <= MAX_ATTEMPTS,
    {
        proof {
            use_type_invariant(self);
        }
        self.attempts
    }
}

/// The worker's knowledge after the looks `probes`, one after the other.
pub open spec fn spec_after_looks(probes: Seq<Option<u64>>) -> StabilityView
    decreases probes.len(),
{
    if probes.len() == 0 {
        StabilityView { last_size: None, stable: 0, attempts: 0 }
    } else {
        spec_observe(spec_after_looks(probes.drop_last()), probes.last())
    }
}

/// A file is opened only after its size has come to rest: whenever the
/// looks so far call for opening the file, there were three of them at least,
/// the last two found one and the same size, that size is not zero, and it
/// is the size that was known before those two looks.
pub proof fn lemma_open_needs_rest(probes: Seq<Option<u64>>)
    requires
        0 < probes.len() <= MAX_ATTEMPTS,
        spec_after_looks(probes).stable >= STABLE_LOOKS,
    ensures
        probes.len() >= 3,
        probes[probes.len() - 1] is Some,
        probes[probes.len() - 1]->0 > 0,
        probes[probes.len() - 2] == probes[probes.len() - 1],
        spec_after_looks(probes.drop_last().drop_last()).last_size == probes[probes.len() - 1],
{
    let n = probes.len() as int;
    let p1 = probes.drop_last();
    lemma_looks_counted(probes);
    lemma_looks_counted(p1);
    assert(spec_after_looks(probes) == spec_observe(spec_after_looks(p1), probes.last()));
    assert(spec_after_looks(p1).stable >= 1);
    assert(p1.len() > 0);
    let p2 = p1.drop_last();
    lemma_looks_counted(p2);
    assert(spec_after_looks(p1) == spec_observe(spec_after_looks(p2), p1.last()));
    assert(p1.last() == probes[n - 2]);
    assert(p2.len() > 0) by {
        if p2.len() == 0 {
            assert(spec_after_looks(p2).last_size is None);
        }
    }
}

/// The twentieth look decides: after it the file is opened or given up, and
/// a file that cannot be opened then is given up. No file is waited for
/// longer.
pub proof fn lemma_last_look_decides(before: StabilityView, probe: Option<u64>, opened: bool)
    requires
        before.attempts + 1 == MAX_ATTEMPTS,
    ensures
        spec_step_after_look(before, spec_observe(before, probe)) != Step::Wait,
        spec_step_after_open(spec_observe(before, probe), opened) != Step::Wait,
{
}

/// As long as the looks are no more than twenty, each of them is counted.
pub proof fn lemma_looks_counted(probes: Seq<Option<u64>>)
    requires
        probes.len() <= MAX_ATTEMPTS,
    ensures
        spec_after_looks(probes).attempts == probes.len(),
        spec_after_looks(probes).stable <= probes.len(),
    decreases probes.len(),
{
    if probes.len() > 0 {
        lemma_looks_counted(probes.drop_last());
    }
}

/// Decides what a delivered event queues.
pub fn expand_event(is_directory: bool, recursive: bool) -> (e: Expansion)
    ensures
        e == if !is_directory {
            Expansion::File
        } else if recursive {
            Expansion::Children
        } else {
            Expansion::Nothing
        },
{
    if !is_directory {
        Expansion::File
    } else if recursive {
        Expansion::Children
    } else {
        Expansion::Nothing
    }
}

/// The kind under which a file is queued, where it is queued at all: it is
/// a media file, not a video while videos are not taken, and within the
/// limits of size and resolution.
pub open spec fn spec_accept(
    path: Seq<char>,
    videos: bool,
    size: Option<u64>,
    dimensions: Option<(u32, u32)>,
    min_resolution: Option<u32>,
    max_size_mb: Option<u64>,
) -> Option<MediaType> {
    match spec_detect(path) {
        None => None,
        Some(kind) => if (kind == MediaType::Video && !videos) || too_large(size, max_size_mb)
            || too_small(kind, dimensions, min_resolution) {
            None
        } else {
            Some(kind)
        },
    }
}

/// Decides whether a file that an event named is queued, and as what. The
/// limits are those of a scan.
pub fn accept_file(
    path: &str,
    videos: bool,
    size: Option<u64>,
    dimensions: Option<(u32, u32)>,
    min_resolution: Option<u32>,
    max_size_mb: Option<u64>,
) -> (kind: Option<MediaType>)
    ensures
        kind == spec_accept(path@, videos, size, dimensions, min_resolution, max_size_mb),
{
    match MediaType::detect(path) {
        None => None,
        Some(kind) => {
            let is_video = match kind {
                MediaType::Video => true,
                MediaType::Image => false,
            };
            if (is_video && !videos) || exceeds_size(size, max_size_mb) || below_resolution(
                kind,
                dimensions,
                min_resolution,
            ) {
                None
            } else {
                Some(kind)
            }
        },
    }
}

} // verus!
