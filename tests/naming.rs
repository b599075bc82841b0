use lecturecut::naming::{get_automatic_path, get_platform_automatic_path, join_path, make_clickable_link};
use lecturecut::platform::Platform;

#[test]
fn automatic_path_keeps_directory() {
    assert_eq!(get_automatic_path("a/b/video.mp4", false), "a/b/video_lecturecut.mp4");
}

#[test]
fn automatic_path_inverted_without_directory() {
    assert_eq!(get_automatic_path("video.mp4", true), "video_inverted_lecturecut.mp4");
}

#[test]
fn automatic_path_turns_backslashes_into_slashes() {
    assert_eq!(get_automatic_path("c\\d\\clip.mkv", false), "c/d/clip_lecturecut.mkv");
}

#[test]
fn automatic_path_splits_at_last_dot() {
    assert_eq!(get_automatic_path("x/archive.tar.gz", false), "x/archive.tar_lecturecut.gz");
}

#[test]
fn automatic_path_without_extension() {
    assert_eq!(get_automatic_path("dir/video", false), "dir/_lecturecut.video");
}

#[test]
fn automatic_path_is_deterministic() {
    assert_eq!(get_automatic_path("a/b/video.mp4", true), get_automatic_path("a/b/video.mp4", true));
}

#[test]
fn automatic_path_strip_recovers_input() {
    let out = get_automatic_path("a/b/video.mp4", false);
    assert_eq!(out.replacen("_lecturecut", "", 1), "a/b/video.mp4");
}

#[test]
fn automatic_path_windows_separators() {
    assert_eq!(
        get_platform_automatic_path("a/b\\video.mp4", false, Platform::Windows),
        "a\\b\\video_lecturecut.mp4"
    );
    assert_eq!(
        get_platform_automatic_path("a/b\\video.mp4", false, Platform::Linux),
        "a/b/video_lecturecut.mp4"
    );
}

#[test]
fn join_path_adds_one_separator() {
    assert_eq!(join_path("out", "clip.mp4", Platform::Linux), "out/clip.mp4");
    assert_eq!(join_path("out/", "clip.mp4", Platform::Linux), "out/clip.mp4");
    assert_eq!(join_path("", "clip.mp4", Platform::Linux), "clip.mp4");
    assert_eq!(join_path("out", "clip.mp4", Platform::Windows), "out\\clip.mp4");
    assert_eq!(join_path("out\\", "clip.mp4", Platform::Windows), "out\\clip.mp4");
}

#[test]
fn clickable_link_escapes() {
    assert_eq!(
        make_clickable_link("Source", "https://example.org/"),
        "\u{1b}]8;;https://example.org/\u{1b}\\Source\u{1b}]8;;\u{1b}\\"
    );
}

#[test]
fn automatic_path_keeps_root_directory() {
    assert_eq!(get_automatic_path("/video.mp4", false), "/video_lecturecut.mp4");
    assert_ne!(get_automatic_path("/v.mp4", false), get_automatic_path("v.mp4", false));
}
