use vstd::prelude::*;

verus! {

/// Version of the producer, written into every sidecar and cluster cache.
pub const VERSION: &'static str = "0.1.0";

/// File name of the vision model inside a models directory.
pub const VISION_MODEL: &'static str = "vision_model_q4f16.onnx";

/// File name of the text model inside a models directory.
pub const TEXT_MODEL: &'static str = "text_model_q4f16.onnx";

/// File name of the tokenizer inside a models directory.
pub const TOKENIZER: &'static str = "tokenizer.json";

/// Name of the directory of model files that is looked for near the
/// executable.
pub const MODELS_DIR: &'static str = "models";

/// Side length, in pixels, of the square that the vision model takes.
pub const INPUT_SIZE: u32 = 512;

/// Number of components of an embedding of the default model.
pub const EMBEDDING_DIM: usize = 1024;

/// Largest number of tokens of a text query that the text model takes.
pub const MAX_QUERY_TOKENS: usize = 64;

/// Name of the directory that holds the sidecars of a media directory.
pub const SIDECAR_DIR: &'static str = ".scout";

/// Extension of a sidecar file.
pub const SIDECAR_EXT: &'static str = "msgpack";

/// File name of the cluster cache inside the sidecar directory.
pub const CLUSTERS_FILE: &'static str = "clusters.msgpack";

/// Name of the file that lists what a directory wants ignored.
pub const IGNORE_FILE: &'static str = ".scoutignore";

/// Number of leading bytes of a file that take part in its content hash.
pub const HASH_PREFIX_LEN: usize = 65536;

/// Largest number of frames kept from one video.
pub const MAX_VIDEO_FRAMES: usize = 15;

/// Number of results reported where none is asked for.
pub const DEFAULT_LIMIT: usize = 10;

/// Smallest cluster that is reported where no size is asked for.
pub const DEFAULT_MIN_CLUSTER_SIZE: usize = 5;

/// Number of neighbours used for the reduction where none is asked for.
pub const DEFAULT_UMAP_NEIGHBORS: usize = 50;

/// Number of dimensions kept by the reduction where none is asked for.
pub const DEFAULT_UMAP_COMPONENTS: usize = 64;

/// Number of members shown of each cluster where none is asked for.
pub const DEFAULT_CLUSTER_PREVIEW: usize = 5;

/// Number of directories above the executable that are searched for models.
pub const MODEL_SEARCH_DEPTH: usize = 5;

/// The version of the producer.
pub fn current_version() -> (v: &'static str)
    ensures
        v@ == VERSION@,
{
    VERSION
}

} // verus!
