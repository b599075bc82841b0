use vstd::prelude::*;

use crate::naming::{
    automatic_path, get_platform_automatic_path, native_path, replace_char, replaced,
};
use crate::platform::Platform;

verus! {

/// What one run is asked to do.
#[derive(Clone, Debug)]
pub struct Options {
    /// The video file, or the directory of videos, to process.
    pub input: String,
    /// The output file, or the output directory in batch mode; empty when
    /// the output is to be named automatically.
    pub output: String,
    /// Quality of the re-encoded parts, 0 (best) to 51.
    pub quality: u8,
    /// How eagerly silence is detected, 0 to 3.
    pub aggressiveness: u8,
    /// Encoder override, passed on unchecked.
    pub reencode: String,
    /// Cut speech instead of silence.
    pub invert: bool,
}

/// The mathematical value of an [`Options`].
pub struct OptionsView {
    pub input: Seq<char>,
    pub output: Seq<char>,
    pub quality: u8,
    pub aggressiveness: u8,
    pub reencode: Seq<char>,
    pub invert: bool,
}

impl View for Options {
    type V = OptionsView;

    open spec fn view(&self) -> OptionsView {
        OptionsView {
            input: self.input@,
            output: self.output@,
            quality: self.quality,
            aggressiveness: self.aggressiveness,
            reencode: self.reencode@,
            invert: self.invert,
        }
    }
}

impl Default for Options {
    /// No input or output yet, quality 20, aggressiveness 1, no override,
    /// silence is cut.
    fn default() -> (r: Options)
        ensures
            r@ == (OptionsView {
                input: seq![],
                output: seq![],
                quality: 20,
                aggressiveness: 1,
                reencode: seq![],
                invert: false,
            }),
    {
        let r = Options {
            input: String::new(),
            output: String::new(),
            quality: 20,
            aggressiveness: 1,
            reencode: String::new(),
            invert: false,
        };
        assert(r@ =~= (OptionsView {
            input: seq![],
            output: seq![],
            quality: 20,
            aggressiveness: 1,
            reencode: seq![],
            invert: false,
        }));
        r
    }
}

/// An input argument that ends in a double quote had its trailing
/// backslash turned into a quote by the Windows command line: every quote
/// becomes a backslash again. Other inputs are kept.
pub open spec fn unquoted(input: Seq<char>) -> Seq<char> {
    if input.len() > 0 && input.last() == '"' {
        replaced(input, '"', seq!['\\'])
    } else {
        input
    }
}

pub fn fix_trailing_quote(input: &str) -> (r: String)
    ensures
        r@ == unquoted(input@),
{
    let n = input.unicode_len();
    if n > 0 && input.get_char(n - 1) == '"' {
        proof {
            reveal_strlit("\\");
            assert("\\"@ =~= seq!['\\']);
        }
        replace_char(input, '"', "\\")
    } else {
        String::from_str(input)
    }
}

/// Whether `s` begins with `prefix`.
pub open spec fn starts_with(s: Seq<char>, prefix: Seq<char>) -> bool {
    prefix.len() <= s.len() && s.subrange(0, prefix.len() as int) == prefix
}

/// Whether a sniffed MIME type names a video.
pub open spec fn is_video_type(mime: Seq<char>) -> bool {
    starts_with(mime, "video"@)
}

pub fn is_video_mime(mime: &str) -> (r: bool)
    ensures
        r == is_video_type(mime@),
{
    proof {
        reveal_strlit("video");
    }
    let n = mime.unicode_len();
    if n < 5 {
        false
    } else {
        let head = String::from_str(mime.substring_char(0, 5));
        head == String::from_str("video")
    }
}

/// Characters refused in an output path: NUL everywhere, and on Windows
/// also the control characters and `<>:"|?*`.
pub open spec fn is_illegal_char(c: char, platform: Platform) -> bool {
    if platform == Platform::Windows {
        c == '<' || c == '>' || c == ':' || c == '"' || c == '|' || c == '?' || c == '*' || (c
            as u32) < 32
    } else {
        c == '\0'
    }
}

pub open spec fn has_illegal_char(s: Seq<char>, platform: Platform) -> bool {
    exists|i: int| 0 <= i < s.len() && is_illegal_char(#[trigger] s[i], platform)
}

fn illegal_char(c: char, platform: Platform) -> (r: bool)
    ensures
        r == is_illegal_char(c, platform),
{
    if platform == Platform::Windows {
        c == '<' || c == '>' || c == ':' || c == '"' || c == '|' || c == '?' || c == '*' || (c
            as u32) < 32
    } else {
        c == '\0'
    }
}

fn contains_illegal_char(s: &str, platform: Platform) -> (r: bool)
    ensures
        r == has_illegal_char(s@, platform),
{
    let n = s.unicode_len();
    let mut i: usize = 0;
    while i < n
        invariant
            n == s@.len(),
            i <= n,
            forall|j: int| 0 <= j < i ==> !is_illegal_char(#[trigger] s@[j], platform),
        decreases n - i,
    {
        if illegal_char(s.get_char(i), platform) {
            return true;
        }
        i = i + 1;
    }
    false
}

/// What the file system says about the paths of an [`Options`].
pub struct PathFacts {
    pub input_exists: bool,
    pub input_is_file: bool,
    pub input_is_dir: bool,
    /// Sniffed MIME type of the input, when it is a file.
    pub input_mime: String,
    pub output_exists: bool,
    pub output_is_dir: bool,
    /// Whether the output directory holds any entry.
    pub output_has_entries: bool,
    /// Whether something already stands at the automatic output path.
    pub automatic_output_exists: bool,
}

/// Why options are refused.
#[derive(Clone, Copy, Debug, PartialEq, Eq, Structural)]
pub enum ValidationError {
    InputMissing,
    InputNotFileOrDirectory,
    IllegalOutputCharacters,
    OutputNotDirectory,
    OutputExists,
    QualityOutOfRange,
    AggressivenessOutOfRange,
}

impl ValidationError {
    pub open spec fn message_spec(self) -> Seq<char> {
        match self {
            ValidationError::InputMissing => "Input file or directory does not exist."@,
            ValidationError::InputNotFileOrDirectory => "Input needs to be a file or a directory."@,
            ValidationError::IllegalOutputCharacters => "Output path contains illegal characters."@,
            ValidationError::OutputNotDirectory => "Output path needs to be a directory."@,
            ValidationError::OutputExists => "Output file already exists."@,
            ValidationError::QualityOutOfRange => "Quality must be between 0 and 51."@,
            ValidationError::AggressivenessOutOfRange => "Aggressiveness must be between 0 and 3."@,
        }
    }

    /// The message shown to the user.
    pub fn message(self) -> (r: &'static str)
        ensures
            r@ == self.message_spec(),
    {
        match self {
            ValidationError::InputMissing => "Input file or directory does not exist.",
            ValidationError::InputNotFileOrDirectory => "Input needs to be a file or a directory.",
            ValidationError::IllegalOutputCharacters => "Output path contains illegal characters.",
            ValidationError::OutputNotDirectory => "Output path needs to be a directory.",
            ValidationError::OutputExists => "Output file already exists.",
            ValidationError::QualityOutOfRange => "Quality must be between 0 and 51.",
            ValidationError::AggressivenessOutOfRange => "Aggressiveness must be between 0 and 3.",
        }
    }
}

/// Conditions worth telling the user about that do not stop the run.
#[derive(Clone, Copy, Debug, PartialEq, Eq, Structural)]
pub enum Warning {
    InputNotVideo,
    OutputDirectoryNotEmpty,
    ReencodeUnchecked,
}

/// Options that passed validation, with their output resolved.
pub struct ValidatedOptions {
    pub options: Options,
    /// The output directory does not exist yet and has to be created.
    pub create_output_dir: bool,
}

/// The result of validation: the warnings met before it ended, and the
/// resolved options or the reason they were refused.
pub struct Validation {
    pub warnings: Vec<Warning>,
    pub outcome: Result<ValidatedOptions, ValidationError>,
}

/// The first reason, in the order checked, to refuse `o`.
pub open spec fn validation_error(o: OptionsView, f: PathFacts, platform: Platform) -> Option<
    ValidationError,
> {
    let has_output = o.output.len() > 0;
    if !f.input_exists {
        Some(ValidationError::InputMissing)
    } else if !f.input_is_file && !f.input_is_dir {
        Some(ValidationError::InputNotFileOrDirectory)
    } else if has_output && has_illegal_char(o.output, platform) {
        Some(ValidationError::IllegalOutputCharacters)
    } else if has_output && f.input_is_dir && f.output_exists && !f.output_is_dir {
        Some(ValidationError::OutputNotDirectory)
    } else if has_output && !f.input_is_dir && f.output_exists {
        Some(ValidationError::OutputExists)
    } else if !has_output && !f.input_is_dir && f.automatic_output_exists {
        Some(ValidationError::OutputExists)
    } else if o.quality > 51 {
        Some(ValidationError::QualityOutOfRange)
    } else if o.aggressiveness > 3 {
        Some(ValidationError::AggressivenessOutOfRange)
    } else {
        None
    }
}

/// The warnings met, in the order checked, up to the end of validation: a
/// warning whose check comes after the first error is not met.
pub open spec fn validation_warnings(o: OptionsView, f: PathFacts, platform: Platform) -> Seq<
    Warning,
> {
    let input_ok = f.input_exists && (f.input_is_file || f.input_is_dir);
    let not_video = input_ok && f.input_is_file && !is_video_type(f.input_mime@);
    let dir_not_empty = input_ok && o.output.len() > 0 && !has_illegal_char(o.output, platform)
        && f.input_is_dir && f.output_exists && f.output_is_dir && f.output_has_entries;
    let unchecked = validation_error(o, f, platform) is None && o.reencode.len() > 0;
    (if not_video {
        seq![Warning::InputNotVideo]
    } else {
        seq![]
    }) + (if dir_not_empty {
        seq![Warning::OutputDirectoryNotEmpty]
    } else {
        seq![]
    }) + (if unchecked {
        seq![Warning::ReencodeUnchecked]
    } else {
        seq![]
    })
}

/// The output of options that pass: an empty output for a single file is
/// named automatically; a directory keeps its (possibly empty) output.
pub open spec fn resolved_output(o: OptionsView, f: PathFacts, platform: Platform) -> Seq<char> {
    if o.output.len() == 0 && !f.input_is_dir {
        native_path(automatic_path(o.input, o.invert), platform)
    } else {
        o.output
    }
}

/// Validates `options` against what the file system says of its paths.
pub fn validate_args(options: Options, facts: &PathFacts, platform: Platform) -> (r: Validation)
    ensures
        r.warnings@ == validation_warnings(options@, *facts, platform),
        match validation_error(options@, *facts, platform) {
            Some(e) => r.outcome == Err::<ValidatedOptions, ValidationError>(e),
            None => r.outcome is Ok,
        },
        r.outcome matches Ok(v) ==> {
            &&& v.options@ == (OptionsView {
                output: resolved_output(options@, *facts, platform),
                ..options@
            })
            &&& v.create_output_dir == (options@.output.len() > 0 && facts.input_is_dir
                && !facts.output_exists)
        },
{
    let ghost expected = validation_warnings(options@, *facts, platform);
    let mut warnings: Vec<Warning> = Vec::new();
    if !facts.input_exists {
        assert(warnings@ =~= expected);
        return Validation { warnings, outcome: Err(ValidationError::InputMissing) };
    }
    if !facts.input_is_file && !facts.input_is_dir {
        assert(warnings@ =~= expected);
        return Validation { warnings, outcome: Err(ValidationError::InputNotFileOrDirectory) };
    }
    if facts.input_is_file && !is_video_mime(facts.input_mime.as_str()) {
        warnings.push(Warning::InputNotVideo);
    }
    let has_output = options.output.unicode_len() > 0;
    let mut create_output_dir = false;
    let mut output = options.output;
    if has_output {
        if contains_illegal_char(output.as_str(), platform) {
            assert(warnings@ =~= expected);
            return Validation { warnings, outcome: Err(ValidationError::IllegalOutputCharacters) };
        }
        if facts.input_is_dir {
            if facts.output_exists {
                if !facts.output_is_dir {
                    assert(warnings@ =~= expected);
                    return Validation {
                        warnings,
                        outcome: Err(ValidationError::OutputNotDirectory),
                    };
                }
                if facts.output_has_entries {
                    warnings.push(Warning::OutputDirectoryNotEmpty);
                }
            } else {
                create_output_dir = true;
            }
        } else if facts.output_exists {
            assert(warnings@ =~= expected);
            return Validation { warnings, outcome: Err(ValidationError::OutputExists) };
        }
    } else if !facts.input_is_dir {
        output = get_platform_automatic_path(options.input.as_str(), options.invert, platform);
        if facts.automatic_output_exists {
            assert(warnings@ =~= expected);
            return Validation { warnings, outcome: Err(ValidationError::OutputExists) };
        }
    }
    if options.quality > 51 {
        assert(warnings@ =~= expected);
        return Validation { warnings, outcome: Err(ValidationError::QualityOutOfRange) };
    }
    if options.aggressiveness > 3 {
        assert(warnings@ =~= expected);
        return Validation { warnings, outcome: Err(ValidationError::AggressivenessOutOfRange) };
    }
    if options.reencode.unicode_len() > 0 {
        warnings.push(Warning::ReencodeUnchecked);
    }
    assert(warnings@ =~= expected);
    let validated = ValidatedOptions {
        options: Options {
            input: options.input,
            output,
            quality: options.quality,
            aggressiveness: options.aggressiveness,
            reencode: options.reencode,
            invert: options.invert,
        },
        create_output_dir,
    };
    Validation { warnings, outcome: Ok(validated) }
}

/// Whether a sniffed MIME type is exactly that of an MP4 file, the container
/// the render module is made for.
pub fn is_mp4_mime(mime: &str) -> (r: bool)
    ensures
        r == (mime@ == "video/mp4"@),
{
    String::from_str(mime) == String::from_str("video/mp4")
}

} // verus!
