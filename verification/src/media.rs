use crate::paths::{extension_chars, spec_extension};
use crate::text::{chars_of, eq_ignore_ascii_case, spec_eq_ignore_ascii_case};
use vstd::prelude::*;

verus! {

/// Kind of a media file.
#[derive(Clone, Copy, Debug, PartialEq, Eq, Structural)]
pub enum MediaType {
    Image,
    Video,
}

/// Whether an extension, letter case aside, is one of `jpg`, `jpeg`, `png`,
/// `gif`, `bmp`, `webp`, `tiff`, `tif`, `ico`, `avif`.
pub open spec fn is_image_extension(ext: Seq<char>) -> bool {
    ||| spec_eq_ignore_ascii_case(ext, "jpg"@)
    ||| spec_eq_ignore_ascii_case(ext, "jpeg"@)
    ||| spec_eq_ignore_ascii_case(ext, "png"@)
    ||| spec_eq_ignore_ascii_case(ext, "gif"@)
    ||| spec_eq_ignore_ascii_case(ext, "bmp"@)
    ||| spec_eq_ignore_ascii_case(ext, "webp"@)
    ||| spec_eq_ignore_ascii_case(ext, "tiff"@)
    ||| spec_eq_ignore_ascii_case(ext, "tif"@)
    ||| spec_eq_ignore_ascii_case(ext, "ico"@)
    ||| spec_eq_ignore_ascii_case(ext, "avif"@)
}

/// Whether an extension, letter case aside, is one of `mp4`, `mkv`, `avi`,
/// `mov`, `wmv`, `flv`, `webm`, `m4v`, `mpg`, `mpeg`.
pub open spec fn is_video_extension(ext: Seq<char>) -> bool {
    ||| spec_eq_ignore_ascii_case(ext, "mp4"@)
    ||| spec_eq_ignore_ascii_case(ext, "mkv"@)
    ||| spec_eq_ignore_ascii_case(ext, "avi"@)
    ||| spec_eq_ignore_ascii_case(ext, "mov"@)
    ||| spec_eq_ignore_ascii_case(ext, "wmv"@)
    ||| spec_eq_ignore_ascii_case(ext, "flv"@)
    ||| spec_eq_ignore_ascii_case(ext, "webm"@)
    ||| spec_eq_ignore_ascii_case(ext, "m4v"@)
    ||| spec_eq_ignore_ascii_case(ext, "mpg"@)
    ||| spec_eq_ignore_ascii_case(ext, "mpeg"@)
}

/// The kind of media that a path names, judged by its extension alone.
pub open spec fn spec_detect(path: Seq<char>) -> Option<MediaType> {
    match spec_extension(path) {
        Some(ext) => if is_image_extension(ext) {
            Some(MediaType::Image)
        } else if is_video_extension(ext) {
            Some(MediaType::Video)
        } else {
            None
        },
        None => None,
    }
}

/// A separator at the end of a path does not change what the path is taken
/// for.
pub proof fn lemma_detect_ignores_separator_at_end(path: Seq<char>)
    ensures
        spec_detect(path.push(crate::paths::SEPARATOR)) == spec_detect(path),
{
    crate::paths::lemma_ignores_separator_at_end(path);
}

fn is_ext(ext: &[char], known: &str) -> (r: bool)
    ensures
        r == spec_eq_ignore_ascii_case(ext@, known@),
{
    let k = chars_of(known);
    eq_ignore_ascii_case(ext, k.as_slice())
}

fn image_extension(ext: &[char]) -> (r: bool)
    ensures
        r == is_image_extension(ext@),
{
    is_ext(ext, "jpg") || is_ext(ext, "jpeg") || is_ext(ext, "png") || is_ext(ext, "gif") || is_ext(
        ext,
        "bmp",
    ) || is_ext(ext, "webp") || is_ext(ext, "tiff") || is_ext(ext, "tif") || is_ext(ext, "ico")
        || is_ext(ext, "avif")
}

fn video_extension(ext: &[char]) -> (r: bool)
    ensures
        r == is_video_extension(ext@),
{
    is_ext(ext, "mp4") || is_ext(ext, "mkv") || is_ext(ext, "avi") || is_ext(ext, "mov") || is_ext(
        ext,
        "wmv",
    ) || is_ext(ext, "flv") || is_ext(ext, "webm") || is_ext(ext, "m4v") || is_ext(ext, "mpg")
        || is_ext(ext, "mpeg")
}

impl MediaType {
    /// Tells from the extension of a path whether it names an image, a video
    /// or neither. The file is not read.
    pub fn detect(path: &str) -> (kind: Option<MediaType>)
        ensures
            kind == spec_detect(path@),
    {
        let chars = chars_of(path);
        match extension_chars(chars.as_slice()) {
            Some(ext) => {
                if image_extension(ext.as_slice()) {
                    Some(MediaType::Image)
                } else if video_extension(ext.as_slice()) {
                    Some(MediaType::Video)
                } else {
                    None
                }
            },
            None => None,
        }
    }
}

} // verus!
