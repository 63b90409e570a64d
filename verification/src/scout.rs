use crate::models::{is_validation, paths_in, ModelError, ModelPaths, Models, Presence};
use crate::runtime::Provider;
use crate::scalar::Scalar;
use crate::search::{is_ranking, rank, Candidate, Filter, Match, Scores};
use vstd::prelude::*;

verus! {

/// The library as one object: the models and what they run with.
pub struct Scout {
    pub models: Models,
    /// The execution provider that was asked for, if any.
    pub provider: Option<Provider>,
    pub verbose: bool,
}

/// Collects what a `Scout` is made with.
pub struct ScoutBuilder {
    pub model_dir: Option<String>,
    pub vision_path: Option<String>,
    pub text_path: Option<String>,
    pub tokenizer_path: Option<String>,
    pub provider: Option<Provider>,
    pub verbose: bool,
}

/// Why no `Scout` can be made.
pub enum BuildError {
    /// Single files were named, but not the vision model.
    VisionPathRequired,
    /// Single files were named, but not the text model.
    TextPathRequired,
    /// Single files were named, but not the tokenizer.
    TokenizerPathRequired,
    /// Nothing was named and no directory of model files was found.
    ModelsNotFound,
    /// A file of the models does not exist.
    Model(ModelError),
}

/// Where a builder takes the models from.
pub enum ModelSource {
    /// From three files named one by one.
    Files(ModelPaths),
    /// From a directory of model files.
    Directory(String),
}

impl ScoutBuilder {
    /// Whether one of the three files was named.
    pub open spec fn names_files(self) -> bool {
        self.vision_path is Some || self.text_path is Some || self.tokenizer_path is Some
    }

    /// The directory that the builder takes the models from where no file
    /// was named: the named directory, else the one that was found.
    pub open spec fn spec_directory(self, found: Option<Seq<char>>) -> Option<Seq<char>> {
        match self.model_dir {
            Some(d) => Some(d@),
            None => found,
        }
    }

    /// What keeps the builder from knowing where the models lie. Where one
    /// of the three files was named, all three have to be; where none was,
    /// a directory has to be named or found.
    pub open spec fn spec_source_error(self, found: Option<Seq<char>>) -> Option<BuildError> {
        if self.names_files() {
            if self.vision_path is None {
                Some(BuildError::VisionPathRequired)
            } else if self.text_path is None {
                Some(BuildError::TextPathRequired)
            } else if self.tokenizer_path is None {
                Some(BuildError::TokenizerPathRequired)
            } else {
                None
            }
        } else if self.spec_directory(found) is None {
            Some(BuildError::ModelsNotFound)
        } else {
            None
        }
    }

    /// Whether `paths` are the paths of the three files that the builder
    /// leads to: the files named one by one, else those of the directory.
    pub open spec fn leads_to(self, found: Option<Seq<char>>, paths: ModelPaths) -> bool {
        if self.names_files() {
            &&& self.vision_path matches Some(v)
            &&& self.text_path matches Some(t)
            &&& self.tokenizer_path matches Some(k)
            &&& paths.vision@ == v@
            &&& paths.text@ == t@
            &&& paths.tokenizer@ == k@
        } else {
            self.spec_directory(found) matches Some(d) && paths_in(paths, d)
        }
    }

    /// Names the directory that holds the three files of the models.
    pub fn model_dir(self, path: &str) -> (b: Self)
        ensures
            b.model_dir matches Some(p) && p@ == path@,
            b.vision_path == self.vision_path,
            b.text_path == self.text_path,
            b.tokenizer_path == self.tokenizer_path,
            b.provider == self.provider,
            b.verbose == self.verbose,
    {
        let mut b = self;
        b.model_dir = Some(String::from_str(path));
        b
    }

    /// Names the file of the vision model.
    pub fn vision_model(self, path: &str) -> (b: Self)
        ensures
            b.vision_path matches Some(p) && p@ == path@,
            b.model_dir == self.model_dir,
            b.text_path == self.text_path,
            b.tokenizer_path == self.tokenizer_path,
            b.provider == self.provider,
            b.verbose == self.verbose,
    {
        let mut b = self;
        b.vision_path = Some(String::from_str(path));
        b
    }

    /// Names the file of the text model.
    pub fn text_model(self, path: &str) -> (b: Self)
        ensures
            b.text_path matches Some(p) && p@ == path@,
            b.model_dir == self.model_dir,
            b.vision_path == self.vision_path,
            b.tokenizer_path == self.tokenizer_path,
            b.provider == self.provider,
            b.verbose == self.verbose,
    {
        let mut b = self;
        b.text_path = Some(String::from_str(path));
        b
    }

    /// Names the file of the tokenizer.
    pub fn tokenizer(self, path: &str) -> (b: Self)
        ensures
            b.tokenizer_path matches Some(p) && p@ == path@,
            b.model_dir == self.model_dir,
            b.vision_path == self.vision_path,
            b.text_path == self.text_path,
            b.provider == self.provider,
            b.verbose == self.verbose,
    {
        let mut b = self;
        b.tokenizer_path = Some(String::from_str(path));
        b
    }

    /// Selects the execution provider.
    pub fn provider(self, provider: Provider) -> (b: Self)
        ensures
            b.provider == Some(provider),
            b.model_dir == self.model_dir,
            b.vision_path == self.vision_path,
            b.text_path == self.text_path,
            b.tokenizer_path == self.tokenizer_path,
            b.verbose == self.verbose,
    {
        let mut b = self;
        b.provider = Some(provider);
        b
    }

    /// Turns debug output on or off.
    pub fn verbose(self, enabled: bool) -> (b: Self)
        ensures
            b.verbose == enabled,
            b.model_dir == self.model_dir,
            b.vision_path == self.vision_path,
            b.text_path == self.text_path,
            b.tokenizer_path == self.tokenizer_path,
            b.provider == self.provider,
    {
        let mut b = self;
        b.verbose = enabled;
        b
    }

    /// Settles where the models are taken from. `found` is the directory of
    /// model files that was found without the builder's help, if any.
    pub fn source(&self, found: Option<&str>) -> (source: Result<ModelSource, BuildError>)
        ensures
            match source {
                Ok(ModelSource::Files(p)) => self.names_files() && self.spec_source_error(
                    spec_text(found),
                ) is None && self.leads_to(spec_text(found), p),
                Ok(ModelSource::Directory(d)) => !self.names_files() && self.spec_directory(
                    spec_text(found),
                ) == Some(d@),
                Err(e) => self.spec_source_error(spec_text(found)) == Some(e),
            },
    {
        if self.vision_path.is_some() || self.text_path.is_some() || self.tokenizer_path.is_some() {
            match (&self.vision_path, &self.text_path, &self.tokenizer_path) {
                (None, _, _) => Err(BuildError::VisionPathRequired),
                (Some(_), None, _) => Err(BuildError::TextPathRequired),
                (Some(_), Some(_), None) => Err(BuildError::TokenizerPathRequired),
                (Some(vision), Some(text), Some(tokenizer)) => Ok(
                    ModelSource::Files(
                        ModelPaths {
                            vision: vision.clone(),
                            text: text.clone(),
                            tokenizer: tokenizer.clone(),
                        },
                    ),
                ),
            }
        } else {
            match &self.model_dir {
                Some(dir) => Ok(ModelSource::Directory(dir.clone())),
                None => match found {
                    Some(f) => Ok(ModelSource::Directory(String::from_str(f))),
                    None => Err(BuildError::ModelsNotFound),
                },
            }
        }
    }

    /// Makes the `Scout`. `found` is the directory of model files that was
    /// found without the builder's help, if any; `present` says which of the
    /// three files that `source` leads to exist. The models themselves are
    /// loaded when they are first needed.
    pub fn build(self, found: Option<&str>, present: Presence) -> (result: Result<Scout, BuildError>)
        ensures
            match result {
                Ok(scout) => {
                    &&& self.spec_source_error(spec_text(found)) is None
                    &&& present.vision && present.text && present.tokenizer
                    &&& self.leads_to(spec_text(found), scout.models.paths)
                    &&& scout.provider == self.provider
                    &&& scout.verbose == self.verbose
                    &&& scout.models.quiet == !self.verbose
                    &&& !scout.models.vision_loaded
                    &&& !scout.models.text_loaded
                },
                Err(BuildError::Model(e)) => {
                    &&& self.spec_source_error(spec_text(found)) is None
                    &&& exists|paths: ModelPaths|
                        #[trigger] self.leads_to(spec_text(found), paths) && is_validation(
                            Err::<Models, ModelError>(e),
                            paths,
                            present,
                            !self.verbose,
                        )
                },
                Err(e) => self.spec_source_error(spec_text(found)) == Some(e),
            },
    {
        let source = self.source(found);
        let paths = match source {
            Ok(ModelSource::Files(paths)) => paths,
            Ok(ModelSource::Directory(dir)) => ModelPaths::in_dir(dir.as_str()),
            Err(e) => {
                return Err(e);
            },
        };
        let ghost led = paths;
        match Models::validate_and_build(paths, present, !self.verbose) {
            Ok(models) => Ok(Scout { models, provider: self.provider, verbose: self.verbose }),
            Err(e) => {
                assert(self.leads_to(spec_text(found), led) && is_validation(
                    Err::<Models, ModelError>(e),
                    led,
                    present,
                    !self.verbose,
                ));
                Err(BuildError::Model(e))
            },
        }
    }
}

/// The text of a string slice that may be missing.
pub open spec fn spec_text(s: Option<&str>) -> Option<Seq<char>> {
    match s {
        Some(t) => Some(t@),
        None => None,
    }
}

/// The candidates that plain scores stand for: one image for each score.
pub open spec fn spec_images(scores: Seq<Scalar>) -> Seq<Candidate> {
    Seq::new(scores.len(), |i: int| Candidate { canonical: None, scores: Scores::Image(scores[i]) })
}

/// The filter that lets through every score that reaches `min_score`.
pub open spec fn spec_threshold(min_score: Scalar) -> Filter {
    Filter { min_score, exclude_videos: false, include_ref: true, reference: None }
}

/// Ranks plain scores: those that reach `min_score`, by descending score,
/// equal scores in the order in which they stand, at most `limit` of them.
pub fn rank_scores(scores: &Vec<Scalar>, limit: usize, min_score: Scalar) -> (matches: Vec<Match>)
    ensures
        is_ranking(spec_images(scores@), spec_threshold(min_score), limit as int, matches@),
{
    let mut candidates: Vec<Candidate> = Vec::new();
    let mut i: usize = 0;
    while i < scores.len()
        invariant
            i <= scores.len(),
            candidates.len() == i,
            forall|j: int|
                0 <= j < i ==> #[trigger] candidates[j] == (Candidate {
                    canonical: None,
                    scores: Scores::Image(scores[j]),
                }),
        decreases scores.len() - i,
    {
        candidates.push(Candidate { canonical: None, scores: Scores::Image(scores[i]) });
        i += 1;
    }
    assert(candidates@ =~= spec_images(scores@));
    let filter = Filter { min_score, exclude_videos: false, include_ref: true, reference: None };
    rank(&candidates, &filter, limit)
}

impl Scout {
    /// A builder with nothing named.
    pub fn builder() -> (b: ScoutBuilder)
        ensures
            b.model_dir is None,
            b.vision_path is None,
            b.text_path is None,
            b.tokenizer_path is None,
            b.provider is None,
            !b.verbose,
    {
        ScoutBuilder {
            model_dir: None,
            vision_path: None,
            text_path: None,
            tokenizer_path: None,
            provider: None,
            verbose: false,
        }
    }

    /// Finds the best of a list of candidates. `scores` holds the similarity
    /// of the query to each candidate; the result names the candidates by
    /// their positions.
    pub fn search(&self, scores: &Vec<Scalar>, limit: usize, min_score: Scalar) -> (matches: Vec<
        Match,
    >)
        ensures
            is_ranking(spec_images(scores@), spec_threshold(min_score), limit as int, matches@),
    {
        rank_scores(scores, limit, min_score)
    }
}

} // verus!
