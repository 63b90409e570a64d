use crate::config::{MODELS_DIR, MODEL_SEARCH_DEPTH, TEXT_MODEL, TOKENIZER, VISION_MODEL};
use crate::paths::{join, parent, spec_join, spec_parent};
use crate::runtime::Provider;
use vstd::prelude::*;

verus! {

/// What is set once, when the program starts, and read from then on.
pub struct Settings {
    /// Directory of model files that the user named.
    pub model_dir: Option<String>,
    /// Path of the transcoder that the user named.
    pub ffmpeg_path: Option<String>,
    /// Execution provider that the user selected.
    pub provider: Option<Provider>,
    /// Whether debug output is shown.
    pub verbose: bool,
}

impl Settings {
    /// Settings with nothing set.
    pub fn new() -> (s: Self)
        ensures
            s.model_dir is None,
            s.ffmpeg_path is None,
            s.provider is None,
            !s.verbose,
    {
        Settings { model_dir: None, ffmpeg_path: None, provider: None, verbose: false }
    }

    /// The selected provider, `Auto` where none was selected.
    pub fn provider(&self) -> (p: Provider)
        ensures
            p == match self.provider {
                Some(p) => p,
                None => Provider::Auto,
            },
    {
        match self.provider {
            Some(p) => p,
            None => Provider::Auto,
        }
    }
}

/// Names the directory of model files. The first call decides; a later one
/// changes nothing.
pub fn set_model_dir(settings: &mut Settings, path: String)
    ensures
        final(settings).model_dir == match old(settings).model_dir {
            Some(first) => Some(first),
            None => Some(path),
        },
        final(settings).ffmpeg_path == old(settings).ffmpeg_path,
        final(settings).provider == old(settings).provider,
        final(settings).verbose == old(settings).verbose,
{
    if settings.model_dir.is_none() {
        settings.model_dir = Some(path);
    }
}

/// Names the transcoder. The first call decides; a later one changes
/// nothing.
pub fn set_ffmpeg_path(settings: &mut Settings, path: String)
    ensures
        final(settings).ffmpeg_path == match old(settings).ffmpeg_path {
            Some(first) => Some(first),
            None => Some(path),
        },
        final(settings).model_dir == old(settings).model_dir,
        final(settings).provider == old(settings).provider,
        final(settings).verbose == old(settings).verbose,
{
    if settings.ffmpeg_path.is_none() {
        settings.ffmpeg_path = Some(path);
    }
}

/// Selects the execution provider. The first call decides; a later one
/// changes nothing.
pub fn set_provider(settings: &mut Settings, provider: Provider)
    ensures
        final(settings).provider == match old(settings).provider {
            Some(first) => Some(first),
            None => Some(provider),
        },
        final(settings).model_dir == old(settings).model_dir,
        final(settings).ffmpeg_path == old(settings).ffmpeg_path,
        final(settings).verbose == old(settings).verbose,
{
    if settings.provider.is_none() {
        settings.provider = Some(provider);
    }
}

/// The directory `levels` steps above a path, where there is one: the root
/// has no directory above it.
pub open spec fn spec_ancestor(path: Seq<char>, levels: nat) -> Option<Seq<char>>
    decreases levels,
{
    if levels == 0 {
        Some(path)
    } else {
        match spec_ancestor(path, (levels - 1) as nat) {
            Some(below) => spec_parent(below),
            None => None,
        }
    }
}

/// The place number `k`, from 0, where model files are looked for near an
/// executable: the directory `models` in the directory `k + 1` steps above
/// it.
pub open spec fn spec_candidate(executable: Seq<char>, k: int) -> Option<Seq<char>> {
    match spec_ancestor(executable, (k + 1) as nat) {
        Some(dir) => Some(spec_join(dir, MODELS_DIR@)),
        None => None,
    }
}

/// Where model files are looked for near an executable: the directory
/// `models` in each of the directories above it, the nearest first, five at
/// most.
pub fn executable_candidates(executable: &str) -> (candidates: Vec<String>)
    ensures
        candidates.len() <= MODEL_SEARCH_DEPTH,
        forall|k: int|
            0 <= k < candidates.len() ==> spec_candidate(executable@, k) == Some(
                (#[trigger] candidates[k])@,
            ),
        candidates.len() < MODEL_SEARCH_DEPTH ==> spec_ancestor(
            executable@,
            (candidates.len() + 1) as nat,
        ) is None,
{
    let mut candidates: Vec<String> = Vec::new();
    let mut current = String::from_str(executable);
    let mut done = false;
    while candidates.len() < MODEL_SEARCH_DEPTH && !done
        invariant
            candidates.len() <= MODEL_SEARCH_DEPTH,
            !done ==> spec_ancestor(executable@, candidates.len() as nat) == Some(current@),
            done ==> candidates.len() < MODEL_SEARCH_DEPTH && spec_ancestor(
                executable@,
                (candidates.len() + 1) as nat,
            ) is None,
            forall|k: int|
                0 <= k < candidates.len() ==> spec_candidate(executable@, k) == Some(
                    (#[trigger] candidates[k])@,
                ),
        decreases MODEL_SEARCH_DEPTH - candidates.len() + if done { 0int } else { 1int },
    {
        match parent(current.as_str()) {
            Some(dir) => {
                let ghost before = candidates@;
                candidates.push(join(dir.as_str(), MODELS_DIR));
                assert forall|k: int| 0 <= k < candidates.len() implies spec_candidate(
                    executable@,
                    k,
                ) == Some((#[trigger] candidates[k])@) by {
                    if k < before.len() {
                        assert(candidates[k] == before[k]);
                    }
                }
                current = dir;
            },
            None => {
                done = true;
            },
        }
    }
    candidates
}

/// The directory of model files: the one the user named, else the one the
/// environment names, else the one found near the executable. The caller
/// hands in the latter two only where they exist as directories.
pub fn models_dir(
    settings: &Settings,
    from_environment: Option<String>,
    near_executable: Option<String>,
) -> (dir: Option<String>)
    ensures
        dir == match settings.model_dir {
            Some(custom) => Some(custom),
            None => match from_environment {
                Some(e) => Some(e),
                None => near_executable,
            },
        },
{
    match &settings.model_dir {
        Some(custom) => Some(custom.clone()),
        None => match from_environment {
            Some(e) => Some(e),
            None => near_executable,
        },
    }
}

/// Where the vision model lies in a directory of model files.
pub fn get_vision_model_path(models_dir: Option<&str>) -> (path: Option<String>)
    ensures
        match path {
            Some(p) => models_dir matches Some(d) && p@ == spec_join(d@, VISION_MODEL@),
            None => models_dir is None,
        },
{
    match models_dir {
        Some(d) => Some(join(d, VISION_MODEL)),
        None => None,
    }
}

/// Where the text model lies in a directory of model files.
pub fn get_text_model_path(models_dir: Option<&str>) -> (path: Option<String>)
    ensures
        match path {
            Some(p) => models_dir matches Some(d) && p@ == spec_join(d@, TEXT_MODEL@),
            None => models_dir is None,
        },
{
    match models_dir {
        Some(d) => Some(join(d, TEXT_MODEL)),
        None => None,
    }
}

/// Where the tokenizer lies in a directory of model files.
pub fn get_tokenizer_path(models_dir: Option<&str>) -> (path: Option<String>)
    ensures
        match path {
            Some(p) => models_dir matches Some(d) && p@ == spec_join(d@, TOKENIZER@),
            None => models_dir is None,
        },
{
    match models_dir {
        Some(d) => Some(join(d, TOKENIZER)),
        None => None,
    }
}

} // verus!
