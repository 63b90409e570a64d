use crate::config::{TEXT_MODEL, TOKENIZER, VISION_MODEL};
use crate::paths::{join, spec_join};
use vstd::prelude::*;

verus! {

/// Where the three files of the models lie.
pub struct ModelPaths {
    pub vision: String,
    pub text: String,
    pub tokenizer: String,
}

/// Which of the three files were found on disk.
#[derive(Clone, Copy, Debug)]
pub struct Presence {
    pub vision: bool,
    pub text: bool,
    pub tokenizer: bool,
}

/// Why the models cannot be used.
pub enum ModelError {
    /// No directory of model files is known.
    NoModelsDirectory,
    /// The vision model does not exist at this path.
    VisionMissing(String),
    /// The text model does not exist at this path.
    TextMissing(String),
    /// The tokenizer does not exist at this path.
    TokenizerMissing(String),
}

/// What has to happen before the next encoding.
#[derive(Clone, Copy, Debug, PartialEq, Eq, Structural)]
pub enum EncodeStep {
    /// The model has not been loaded: load it, then run it.
    Load,
    /// The model is loaded: run it.
    Run,
}

/// The two models: where their files lie and which of them are loaded. A
/// model is loaded when it is first needed.
pub struct Models {
    pub paths: ModelPaths,
    pub vision_loaded: bool,
    pub text_loaded: bool,
    /// Whether loading is reported to the user.
    pub quiet: bool,
}

/// The paths of the three files in a directory of model files.
pub open spec fn paths_in(paths: ModelPaths, dir: Seq<char>) -> bool {
    &&& paths.vision@ == spec_join(dir, VISION_MODEL@)
    &&& paths.text@ == spec_join(dir, TEXT_MODEL@)
    &&& paths.tokenizer@ == spec_join(dir, TOKENIZER@)
}

/// Whether `result` is what validation of `paths` against `present` gives:
/// the models with nothing loaded where all three files exist, else the
/// error for the first that is missing, the vision model before the text
/// model before the tokenizer.
pub open spec fn is_validation(
    result: Result<Models, ModelError>,
    paths: ModelPaths,
    present: Presence,
    quiet: bool,
) -> bool {
    if !present.vision {
        result matches Err(ModelError::VisionMissing(p)) && p == paths.vision
    } else if !present.text {
        result matches Err(ModelError::TextMissing(p)) && p == paths.text
    } else if !present.tokenizer {
        result matches Err(ModelError::TokenizerMissing(p)) && p == paths.tokenizer
    } else {
        result matches Ok(m) && m.paths == paths && !m.vision_loaded && !m.text_loaded && m.quiet
            == quiet
    }
}

impl ModelPaths {
    /// The paths of the three files in a directory of model files.
    pub fn in_dir(dir: &str) -> (paths: ModelPaths)
        ensures
            paths_in(paths, dir@),
    {
        ModelPaths {
            vision: join(dir, VISION_MODEL),
            text: join(dir, TEXT_MODEL),
            tokenizer: join(dir, TOKENIZER),
        }
    }
}

impl Models {
    /// The models of the directory of model files that was found, if any.
    /// `present` says which of the files of `ModelPaths::in_dir` exist.
    pub fn new(models_dir: Option<&str>, present: Presence) -> (result: Result<Models, ModelError>)
        ensures
            models_dir is None ==> result matches Err(ModelError::NoModelsDirectory),
            models_dir matches Some(dir) ==> exists|paths: ModelPaths|
                paths_in(paths, dir@) && #[trigger] is_validation(result, paths, present, false),
    {
        match models_dir {
            Some(dir) => Models::from_dir(dir, present),
            None => Err(ModelError::NoModelsDirectory),
        }
    }

    /// The models at three paths. `present` says which of the files exist.
    pub fn with_paths(vision: String, text: String, tokenizer: String, present: Presence) -> (result:
        Result<Models, ModelError>)
        ensures
            is_validation(result, ModelPaths { vision, text, tokenizer }, present, false),
    {
        Models::validate_and_build(ModelPaths { vision, text, tokenizer }, present, false)
    }

    /// The models of a directory of model files. `present` says which of the
    /// files of `ModelPaths::in_dir` exist.
    pub fn from_dir(model_dir: &str, present: Presence) -> (result: Result<Models, ModelError>)
        ensures
            exists|paths: ModelPaths|
                paths_in(paths, model_dir@) && #[trigger] is_validation(result, paths, present, false),
    {
        let paths = ModelPaths::in_dir(model_dir);
        let result = Models::validate_and_build(paths, present, false);
        assert(paths_in(paths, model_dir@) && is_validation(result, paths, present, false));
        result
    }

    /// Makes the models where all three files exist.
    pub fn validate_and_build(paths: ModelPaths, present: Presence, quiet: bool) -> (result: Result<
        Models,
        ModelError,
    >)
        ensures
            is_validation(result, paths, present, quiet),
    {
        if !present.vision {
            Err(ModelError::VisionMissing(paths.vision))
        } else if !present.text {
            Err(ModelError::TextMissing(paths.text))
        } else if !present.tokenizer {
            Err(ModelError::TokenizerMissing(paths.tokenizer))
        } else {
            Ok(Models { paths, vision_loaded: false, text_loaded: false, quiet })
        }
    }

    /// What has to happen before an image is encoded.
    pub fn image_step(&self) -> (step: EncodeStep)
        ensures
            step == if self.vision_loaded {
                EncodeStep::Run
            } else {
                EncodeStep::Load
            },
    {
        if self.vision_loaded {
            EncodeStep::Run
        } else {
            EncodeStep::Load
        }
    }

    /// What has to happen before a text is encoded.
    pub fn text_step(&self) -> (step: EncodeStep)
        ensures
            step == if self.text_loaded {
                EncodeStep::Run
            } else {
                EncodeStep::Load
            },
    {
        if self.text_loaded {
            EncodeStep::Run
        } else {
            EncodeStep::Load
        }
    }

    /// Records that the vision model has been loaded.
    pub fn mark_vision_loaded(&mut self)
        ensures
            final(self).vision_loaded,
            final(self).text_loaded == old(self).text_loaded,
            final(self).paths == old(self).paths,
            final(self).quiet == old(self).quiet,
    {
        self.vision_loaded = true;
    }

    /// Records that the text model has been loaded.
    pub fn mark_text_loaded(&mut self)
        ensures
            final(self).text_loaded,
            final(self).vision_loaded == old(self).vision_loaded,
            final(self).paths == old(self).paths,
            final(self).quiet == old(self).quiet,
    {
        self.text_loaded = true;
    }
}

} // verus!
