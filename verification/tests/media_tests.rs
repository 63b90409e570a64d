use scout::media::MediaType;
use std::path::Path;

#[test]
fn detects_every_image_extension() {
    for ext in ["jpg", "jpeg", "png", "gif", "bmp", "webp", "tiff", "tif", "ico", "avif"] {
        assert_eq!(MediaType::detect(&format!("/media/a.{}", ext)), Some(MediaType::Image));
    }
}

#[test]
fn detects_every_video_extension() {
    for ext in ["mp4", "mkv", "avi", "mov", "wmv", "flv", "webm", "m4v", "mpg", "mpeg"] {
        assert_eq!(MediaType::detect(&format!("clip.{}", ext)), Some(MediaType::Video));
    }
}

#[test]
fn extension_is_compared_without_regard_to_case() {
    assert_eq!(MediaType::detect("PHOTO.JPG"), Some(MediaType::Image));
    assert_eq!(MediaType::detect("photo.JpEg"), Some(MediaType::Image));
    assert_eq!(MediaType::detect("movie.MKV"), Some(MediaType::Video));
}

#[test]
fn other_files_are_no_media() {
    assert_eq!(MediaType::detect("notes.txt"), None);
    assert_eq!(MediaType::detect("archive.tar.gz"), None);
    assert_eq!(MediaType::detect("a.msgpack"), None);
    assert_eq!(MediaType::detect("jpg"), None);
    assert_eq!(MediaType::detect(""), None);
    assert_eq!(MediaType::detect("a.jpgx"), None);
    assert_eq!(MediaType::detect("a.jp"), None);
}

#[test]
fn only_the_last_component_counts() {
    assert_eq!(MediaType::detect("/albums.jpg/readme"), None);
    assert_eq!(MediaType::detect("/albums.txt/a.png"), Some(MediaType::Image));
    assert_eq!(MediaType::detect("dir/"), None);
}

#[test]
fn separators_at_the_end_are_not_part_of_the_path() {
    assert_eq!(MediaType::detect("photo.jpg/"), Some(MediaType::Image));
    assert_eq!(MediaType::detect("/media/clip.MP4//"), Some(MediaType::Video));
    assert_eq!(MediaType::detect("/media/notes.txt/"), None);
    assert_eq!(MediaType::detect("/"), None);
}

#[test]
fn detection_agrees_with_the_extension_the_standard_library_reads() {
    let images = ["jpg", "jpeg", "png", "gif", "bmp", "webp", "tiff", "tif", "ico", "avif"];
    let videos = ["mp4", "mkv", "avi", "mov", "wmv", "flv", "webm", "m4v", "mpg", "mpeg"];
    for p in ["photo.jpg/", "a.PNG", "/x/y.mkv", "clip.mp4.txt", "mp4", ".jpg", "/a.b/c", "a.", "/d/e.webm/", "x.tar.gif"] {
        let ext = Path::new(p).extension().and_then(|e| e.to_str());
        let expected = match ext {
            Some(e) if images.iter().any(|i| i.eq_ignore_ascii_case(e)) => Some(MediaType::Image),
            Some(e) if videos.iter().any(|v| v.eq_ignore_ascii_case(e)) => Some(MediaType::Video),
            _ => None,
        };
        assert_eq!(MediaType::detect(p), expected);
    }
}

#[test]
fn only_the_last_extension_counts() {
    assert_eq!(MediaType::detect("a.png.txt"), None);
    assert_eq!(MediaType::detect("a.txt.png"), Some(MediaType::Image));
}

#[test]
fn hidden_files_without_extension_are_no_media() {
    assert_eq!(MediaType::detect(".jpg"), None);
    assert_eq!(MediaType::detect("/x/.png"), None);
    assert_eq!(MediaType::detect(".."), None);
    assert_eq!(MediaType::detect(".hidden.png"), Some(MediaType::Image));
}

#[test]
fn non_ascii_names_are_handled() {
    assert_eq!(MediaType::detect("/fotos/caf\u{e9}.png"), Some(MediaType::Image));
    assert_eq!(MediaType::detect("a.pn\u{e9}"), None);
}
