use crate::config::VERSION;
use crate::media::MediaType;
use crate::scan::MediaFile;
use crate::sidecar::{build_path, spec_build_path, ImageSidecar, VideoFrame, VideoSidecar};
use vstd::prelude::*;

verus! {

/// What is done with one file of a scan.
#[derive(Clone, Copy, Debug, PartialEq, Eq, Structural)]
pub enum FilePlan {
    /// An image: decode it and encode it.
    EncodeImage,
    /// A video: extract its frames and encode each.
    EncodeFrames,
    /// A video while videos cannot be read: leave it.
    SkipVideo,
}

/// How the indexing of one file ended.
#[derive(Clone, Copy, Debug, PartialEq, Eq, Structural)]
pub enum FileOutcome {
    /// A sidecar was written.
    Indexed,
    /// The file could not be decoded, encoded or stored.
    Failed,
    /// The file is a video and videos cannot be read.
    VideoSkipped,
}

/// Counts of a run over the files of a scan.
#[derive(Clone, Copy, Debug, PartialEq, Eq, Structural)]
pub struct IndexReport {
    pub processed: usize,
    pub errors: usize,
    pub skipped_videos: usize,
}

/// Decides what is done with a file of a scan.
pub fn plan_file(media_type: MediaType, video_supported: bool) -> (plan: FilePlan)
    ensures
        plan == match media_type {
            MediaType::Image => FilePlan::EncodeImage,
            MediaType::Video => if video_supported {
                FilePlan::EncodeFrames
            } else {
                FilePlan::SkipVideo
            },
        },
{
    match media_type {
        MediaType::Image => FilePlan::EncodeImage,
        MediaType::Video => if video_supported {
            FilePlan::EncodeFrames
        } else {
            FilePlan::SkipVideo
        },
    }
}

impl IndexReport {
    /// The report of a run that has not begun.
    pub fn new() -> (r: Self)
        ensures
            r == (IndexReport { processed: 0, errors: 0, skipped_videos: 0 }),
    {
        IndexReport { processed: 0, errors: 0, skipped_videos: 0 }
    }

    /// Number of files that the report accounts for.
    pub open spec fn spec_files(self) -> int {
        self.processed + self.errors + self.skipped_videos
    }

    /// Takes in how one file ended. The run goes on whatever the outcome.
    pub fn record(&mut self, outcome: FileOutcome)
        requires
            old(self).spec_files() < usize::MAX,
        ensures
            final(self).processed == old(self).processed + if outcome == FileOutcome::Indexed {
                1int
            } else {
                0int
            },
            final(self).errors == old(self).errors + if outcome == FileOutcome::Failed {
                1int
            } else {
                0int
            },
            final(self).skipped_videos == old(self).skipped_videos + if outcome
                == FileOutcome::VideoSkipped {
                1int
            } else {
                0int
            },
    {
        match outcome {
            FileOutcome::Indexed => {
                self.processed = self.processed + 1;
            },
            FileOutcome::Failed => {
                self.errors = self.errors + 1;
            },
            FileOutcome::VideoSkipped => {
                self.skipped_videos = self.skipped_videos + 1;
            },
        }
    }
}

/// Makes what is stored for an image that has been encoded: the sidecar, and
/// the path under which it is stored in the media directory of the image.
pub fn process_image<E>(file: &MediaFile, media_dir: &str, embedding: E) -> (stored: (
    String,
    ImageSidecar<E>,
))
    ensures
        stored.0@ == spec_build_path(media_dir@, file.hash@),
        stored.1.version@ == VERSION@,
        stored.1.filename@ == file.filename@,
        stored.1.hash@ == file.hash@,
        stored.1.embedding == embedding,
{
    let path = build_path(media_dir, &file.hash);
    let sidecar = ImageSidecar::new(file.filename.clone(), &file.hash, embedding);
    (path, sidecar)
}

/// Makes what is stored for a video whose frames have been encoded: the
/// sidecar, and the path under which it is stored in the media directory of
/// the video.
pub fn process_video<E>(file: &MediaFile, media_dir: &str, frames: Vec<VideoFrame<E>>) -> (stored: (
    String,
    VideoSidecar<E>,
))
    ensures
        stored.0@ == spec_build_path(media_dir@, file.hash@),
        stored.1.version@ == VERSION@,
        stored.1.filename@ == file.filename@,
        stored.1.hash@ == file.hash@,
        stored.1.frames == frames,
{
    let path = build_path(media_dir, &file.hash);
    let sidecar = VideoSidecar::new(file.filename.clone(), &file.hash, frames);
    (path, sidecar)
}

} // verus!
