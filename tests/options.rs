use lecturecut::options::{
    fix_trailing_quote, is_mp4_mime, is_video_mime, validate_args, Options, PathFacts, ValidationError, Warning,
};
use lecturecut::platform::Platform;

fn file_facts(mime: &str) -> PathFacts {
    PathFacts {
        input_exists: true,
        input_is_file: true,
        input_is_dir: false,
        input_mime: mime.to_string(),
        output_exists: false,
        output_is_dir: false,
        output_has_entries: false,
        automatic_output_exists: false,
    }
}

fn dir_facts() -> PathFacts {
    PathFacts { input_is_file: false, input_is_dir: true, input_mime: String::new(), ..file_facts("") }
}

fn with_input(input: &str) -> Options {
    Options { input: input.to_string(), ..Options::default() }
}

#[test]
fn defaults() {
    let o = Options::default();
    assert_eq!(o.quality, 20);
    assert_eq!(o.aggressiveness, 1);
    assert!(o.input.is_empty() && o.output.is_empty() && o.reencode.is_empty());
    assert!(!o.invert);
}

#[test]
fn lecture_gets_automatic_output() {
    let r = validate_args(with_input("lecture.mp4"), &file_facts("video/mp4"), Platform::Linux);
    assert!(r.warnings.is_empty());
    let v = r.outcome.unwrap();
    assert_eq!(v.options.output, "lecture_lecturecut.mp4");
    assert_eq!(v.options.input, "lecture.mp4");
    assert_eq!(v.options.quality, 20);
    assert_eq!(v.options.aggressiveness, 1);
    assert!(!v.create_output_dir);
}

#[test]
fn each_validation_error() {
    let p = Platform::Linux;
    let facts = PathFacts { input_exists: false, ..file_facts("video/mp4") };
    assert_eq!(validate_args(with_input("a.mp4"), &facts, p).outcome.err(), Some(ValidationError::InputMissing));
    let facts = PathFacts { input_is_file: false, ..file_facts("video/mp4") };
    assert_eq!(validate_args(with_input("a.mp4"), &facts, p).outcome.err(), Some(ValidationError::InputNotFileOrDirectory));
    let o = Options { output: "out\0.mp4".to_string(), ..with_input("a.mp4") };
    assert_eq!(validate_args(o, &file_facts("video/mp4"), p).outcome.err(), Some(ValidationError::IllegalOutputCharacters));
    let o = Options { output: "out".to_string(), ..with_input("dir") };
    let facts = PathFacts { output_exists: true, output_is_dir: false, ..dir_facts() };
    assert_eq!(validate_args(o, &facts, p).outcome.err(), Some(ValidationError::OutputNotDirectory));
    let o = Options { output: "b.mp4".to_string(), ..with_input("a.mp4") };
    let facts = PathFacts { output_exists: true, ..file_facts("video/mp4") };
    assert_eq!(validate_args(o, &facts, p).outcome.err(), Some(ValidationError::OutputExists));
    let facts = PathFacts { automatic_output_exists: true, ..file_facts("video/mp4") };
    assert_eq!(validate_args(with_input("a.mp4"), &facts, p).outcome.err(), Some(ValidationError::OutputExists));
    let o = Options { quality: 52, ..with_input("a.mp4") };
    assert_eq!(validate_args(o, &file_facts("video/mp4"), p).outcome.err(), Some(ValidationError::QualityOutOfRange));
    let o = Options { aggressiveness: 4, ..with_input("a.mp4") };
    assert_eq!(validate_args(o, &file_facts("video/mp4"), p).outcome.err(), Some(ValidationError::AggressivenessOutOfRange));
}

#[test]
fn range_edges_pass() {
    let o = Options { quality: 51, aggressiveness: 3, ..with_input("a.mp4") };
    assert!(validate_args(o, &file_facts("video/mp4"), Platform::Linux).outcome.is_ok());
    let o = Options { quality: 0, aggressiveness: 0, ..with_input("a.mp4") };
    assert!(validate_args(o, &file_facts("video/mp4"), Platform::Linux).outcome.is_ok());
}

#[test]
fn warnings_in_order() {
    let o = Options { reencode: "libx265".to_string(), ..with_input("notes.txt") };
    let r = validate_args(o, &file_facts("text/plain"), Platform::Linux);
    assert_eq!(r.warnings, vec![Warning::InputNotVideo, Warning::ReencodeUnchecked]);
    assert_eq!(r.outcome.unwrap().options.output, "notes_lecturecut.txt");
}

#[test]
fn directory_output_handling() {
    let o = Options { output: "out".to_string(), ..with_input("videos") };
    let facts = PathFacts { output_exists: true, output_is_dir: true, output_has_entries: true, ..dir_facts() };
    let r = validate_args(o, &facts, Platform::Linux);
    assert_eq!(r.warnings, vec![Warning::OutputDirectoryNotEmpty]);
    assert!(!r.outcome.unwrap().create_output_dir);
    let o = Options { output: "out".to_string(), ..with_input("videos") };
    let v = validate_args(o, &dir_facts(), Platform::Linux).outcome.unwrap();
    assert!(v.create_output_dir);
    assert_eq!(v.options.output, "out");
    let v = validate_args(with_input("videos"), &dir_facts(), Platform::Linux).outcome.unwrap();
    assert_eq!(v.options.output, "");
}

#[test]
fn windows_illegal_characters() {
    let o = Options { output: "a?b.mp4".to_string(), ..with_input("a.mp4") };
    assert_eq!(
        validate_args(o, &file_facts("video/mp4"), Platform::Windows).outcome.err(),
        Some(ValidationError::IllegalOutputCharacters)
    );
    let o = Options { output: "a?b.mp4".to_string(), ..with_input("a.mp4") };
    assert!(validate_args(o, &file_facts("video/mp4"), Platform::Linux).outcome.is_ok());
}

#[test]
fn trailing_quote_is_repaired() {
    assert_eq!(fix_trailing_quote("C:\\videos\""), "C:\\videos\\");
    assert_eq!(fix_trailing_quote("C:\\videos"), "C:\\videos");
    assert_eq!(fix_trailing_quote(""), "");
}

#[test]
fn video_mime_prefix() {
    assert!(is_video_mime("video/mp4"));
    assert!(is_video_mime("video/x-matroska"));
    assert!(!is_video_mime("text/plain"));
    assert!(!is_video_mime("vid"));
}

#[test]
fn validation_messages() {
    assert_eq!(ValidationError::QualityOutOfRange.message(), "Quality must be between 0 and 51.");
    assert_eq!(ValidationError::OutputExists.message(), "Output file already exists.");
}

#[test]
fn digits_are_legal_in_output() {
    let o = Options { output: "clip_2020.mp4".to_string(), ..with_input("a.mp4") };
    assert!(validate_args(o, &file_facts("video/mp4"), Platform::Linux).outcome.is_ok());
    let o = Options { output: "clip_2020.mp4".to_string(), ..with_input("a.mp4") };
    assert!(validate_args(o, &file_facts("video/mp4"), Platform::Windows).outcome.is_ok());
    let o = Options { output: "a\u{1f}b.mp4".to_string(), ..with_input("a.mp4") };
    assert_eq!(
        validate_args(o, &file_facts("video/mp4"), Platform::Windows).outcome.err(),
        Some(ValidationError::IllegalOutputCharacters)
    );
}

#[test]
fn warning_before_error_is_kept() {
    let o = Options { quality: 60, reencode: "x".to_string(), ..with_input("notes.txt") };
    let r = validate_args(o, &file_facts("text/plain"), Platform::Linux);
    assert_eq!(r.warnings, vec![Warning::InputNotVideo]);
    assert_eq!(r.outcome.err(), Some(ValidationError::QualityOutOfRange));
    let facts = PathFacts { input_exists: false, ..file_facts("text/plain") };
    let r = validate_args(with_input("gone.txt"), &facts, Platform::Linux);
    assert!(r.warnings.is_empty());
}

#[test]
fn mp4_mime_is_exact() {
    assert!(is_mp4_mime("video/mp4"));
    assert!(!is_mp4_mime("video/x-matroska"));
    assert!(!is_mp4_mime("video/mp4x"));
}
