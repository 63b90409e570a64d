use crate::config::{SIDECAR_DIR, SIDECAR_EXT, VERSION};
use crate::hash::FileHash;
use crate::paths::{join, spec_join};
use vstd::prelude::*;

verus! {

/// Name of the sidecar file of a hash: the hash, a dot and the sidecar
/// extension.
pub open spec fn spec_sidecar_name(hash: Seq<char>) -> Seq<char> {
    hash.push('.') + SIDECAR_EXT@
}

/// Where the sidecar of a hash is stored: in the sidecar directory of the
/// media directory, under the name of the hash.
pub open spec fn spec_build_path(media_dir: Seq<char>, hash: Seq<char>) -> Seq<char> {
    spec_join(spec_join(media_dir, SIDECAR_DIR@), spec_sidecar_name(hash))
}

/// Name of the sidecar file of a hash.
pub fn sidecar_name(hash: &FileHash) -> (name: String)
    ensures
        name@ == spec_sidecar_name(hash@),
{
    let mut name = String::from_str(hash.as_str());
    name.push('.');
    name.append(SIDECAR_EXT);
    name
}

/// Where the sidecar of a hash is stored.
pub fn build_path(media_dir: &str, hash: &FileHash) -> (path: String)
    ensures
        path@ == spec_build_path(media_dir@, hash@),
{
    let dir = join(media_dir, SIDECAR_DIR);
    let name = sidecar_name(hash);
    join(dir.as_str(), name.as_str())
}

/// Whether a version text is that of this producer.
pub fn is_current(version: &String) -> (r: bool)
    ensures
        r == (version@ == VERSION@),
{
    let current = String::from_str(VERSION);
    *version == current
}

/// What is stored for an image. `E` is the embedding, which the library
/// carries and never reads.
pub struct ImageSidecar<E> {
    pub version: String,
    pub filename: String,
    pub hash: String,
    pub embedding: E,
}

/// One frame of a video.
pub struct VideoFrame<E> {
    /// Position of the frame in the video, as the caller holds it.
    pub timestamp: u64,
    pub embedding: E,
}

/// What is stored for a video.
pub struct VideoSidecar<E> {
    pub version: String,
    pub filename: String,
    pub hash: String,
    pub frames: Vec<VideoFrame<E>>,
}

/// A sidecar of either kind.
pub enum Sidecar<E> {
    Image(ImageSidecar<E>),
    Video(VideoSidecar<E>),
}

impl<E> ImageSidecar<E> {
    /// A sidecar of this producer for an image.
    pub fn new(filename: String, hash: &FileHash, embedding: E) -> (s: Self)
        ensures
            s.version@ == VERSION@,
            s.filename == filename,
            s.hash@ == hash@,
            s.embedding == embedding,
    {
        ImageSidecar {
            version: String::from_str(VERSION),
            filename,
            hash: String::from_str(hash.as_str()),
            embedding,
        }
    }

    /// The name of the media file inside its directory.
    pub fn filename(&self) -> (name: &str)
        ensures
            name@ == self.filename@,
    {
        self.filename.as_str()
    }

    /// Whether this producer wrote the sidecar.
    pub fn is_current_version(&self) -> (r: bool)
        ensures
            r == (self.version@ == VERSION@),
    {
        is_current(&self.version)
    }
}

impl<E> VideoSidecar<E> {
    /// A sidecar of this producer for a video.
    pub fn new(filename: String, hash: &FileHash, frames: Vec<VideoFrame<E>>) -> (s: Self)
        ensures
            s.version@ == VERSION@,
            s.filename == filename,
            s.hash@ == hash@,
            s.frames == frames,
    {
        VideoSidecar {
            version: String::from_str(VERSION),
            filename,
            hash: String::from_str(hash.as_str()),
            frames,
        }
    }

    /// The name of the media file inside its directory.
    pub fn filename(&self) -> (name: &str)
        ensures
            name@ == self.filename@,
    {
        self.filename.as_str()
    }

    /// Whether this producer wrote the sidecar.
    pub fn is_current_version(&self) -> (r: bool)
        ensures
            r == (self.version@ == VERSION@),
    {
        is_current(&self.version)
    }
}

impl<E> Sidecar<E> {
    /// The version text of the producer that wrote the sidecar.
    pub open spec fn spec_version(self) -> Seq<char> {
        match self {
            Sidecar::Image(s) => s.version@,
            Sidecar::Video(s) => s.version@,
        }
    }

    /// The name of the media file inside its directory.
    pub open spec fn spec_filename(self) -> Seq<char> {
        match self {
            Sidecar::Image(s) => s.filename@,
            Sidecar::Video(s) => s.filename@,
        }
    }

    /// The hash of the media file, as the sidecar holds it.
    pub open spec fn spec_hash(self) -> Seq<char> {
        match self {
            Sidecar::Image(s) => s.hash@,
            Sidecar::Video(s) => s.hash@,
        }
    }

    /// Settles the kind of a stored sidecar from the two attempts to read it:
    /// what reads as a video, with its list of frames, is a video; what does
    /// not, and reads as an image, is an image; what reads as neither is no
    /// sidecar.
    pub fn resolve(video: Option<VideoSidecar<E>>, image: Option<ImageSidecar<E>>) -> (s: Option<
        Sidecar<E>,
    >)
        ensures
            s == match (video, image) {
                (Some(v), _) => Some(Sidecar::Video(v)),
                (None, Some(i)) => Some(Sidecar::Image(i)),
                (None, None) => None::<Sidecar<E>>,
            },
    {
        match video {
            Some(v) => Some(Sidecar::Video(v)),
            None => match image {
                Some(i) => Some(Sidecar::Image(i)),
                None => None,
            },
        }
    }

    /// The name of the media file inside its directory.
    pub fn filename(&self) -> (name: &str)
        ensures
            name@ == self.spec_filename(),
    {
        match self {
            Sidecar::Image(s) => s.filename(),
            Sidecar::Video(s) => s.filename(),
        }
    }

    /// The hash of the media file.
    pub fn hash(&self) -> (hash: &str)
        ensures
            hash@ == self.spec_hash(),
    {
        match self {
            Sidecar::Image(s) => s.hash.as_str(),
            Sidecar::Video(s) => s.hash.as_str(),
        }
    }

    /// Whether this producer wrote the sidecar.
    pub fn is_current_version(&self) -> (r: bool)
        ensures
            r == (self.spec_version() == VERSION@),
    {
        match self {
            Sidecar::Image(s) => s.is_current_version(),
            Sidecar::Video(s) => s.is_current_version(),
        }
    }

    /// Where the media file of the sidecar is expected: under its name in the
    /// media directory.
    pub fn media_path(&self, media_dir: &str) -> (path: String)
        ensures
            path@ == spec_join(media_dir@, self.spec_filename()),
    {
        join(media_dir, self.filename())
    }
}

} // verus!
