use vstd::prelude::*;

use crate::modules::{check_marshal, marshallable, ModuleError};
use crate::naming::{automatic_path, get_platform_automatic_path, join_path, joined, native_path};
use crate::options::{is_video_mime, is_video_type, Options, OptionsView};
use crate::platform::Platform;
use crate::progress::ProgressRegistry;

verus! {

/// An immediate child of the input directory, as the file system and the
/// type sniffer describe it.
pub struct DirEntryInfo {
    /// Full path of the entry.
    pub path: String,
    /// The entry's own name.
    pub file_name: String,
    pub is_file: bool,
    /// Sniffed MIME type.
    pub mime: String,
}

/// Whether an entry is processed in batch mode: a regular file of a video
/// type.
pub open spec fn is_video_entry(e: DirEntryInfo) -> bool {
    e.is_file && is_video_type(e.mime@)
}

/// The options for one file of a batch: its own input, an output in the
/// batch output directory under the file's name (or named automatically
/// when there is no batch output), and everything else shared.
pub open spec fn file_options(
    o: OptionsView,
    path: Seq<char>,
    file_name: Seq<char>,
    platform: Platform,
) -> OptionsView {
    OptionsView {
        input: path,
        output: if o.output.len() > 0 {
            joined(o.output, file_name, platform)
        } else {
            native_path(automatic_path(path, o.invert), platform)
        },
        ..o
    }
}

/// The runs of a batch: one per video entry, in the order of the entries.
pub open spec fn batch_plan(o: OptionsView, entries: Seq<DirEntryInfo>, platform: Platform) -> Seq<
    OptionsView,
> {
    entries.filter(|e: DirEntryInfo| is_video_entry(e)).map_values(
        |e: DirEntryInfo| file_options(o, e.path@, e.file_name@, platform),
    )
}

proof fn lemma_plan_step(o: OptionsView, entries: Seq<DirEntryInfo>, platform: Platform)
    requires
        entries.len() > 0,
    ensures
        batch_plan(o, entries, platform) == if is_video_entry(entries.last()) {
            batch_plan(o, entries.drop_last(), platform).push(
                file_options(o, entries.last().path@, entries.last().file_name@, platform),
            )
        } else {
            batch_plan(o, entries.drop_last(), platform)
        },
{
    reveal_with_fuel(Seq::filter, 1);
    let pred = |e: DirEntryInfo| is_video_entry(e);
    let f = |e: DirEntryInfo| file_options(o, e.path@, e.file_name@, platform);
    assert(entries.filter(pred) == if pred(entries.last()) {
        entries.drop_last().filter(pred).push(entries.last())
    } else {
        entries.drop_last().filter(pred)
    });
    if is_video_entry(entries.last()) {
        assert(entries.filter(pred).map_values(f) =~= entries.drop_last().filter(pred).map_values(
            f,
        ).push(f(entries.last())));
    }
}

pub open spec fn views(v: Seq<Options>) -> Seq<OptionsView> {
    v.map_values(|x: Options| x@)
}

pub fn derive_file_options(options: &Options, path: &str, file_name: &str, platform: Platform) -> (r:
    Options)
    ensures
        r@ == file_options(options@, path@, file_name@, platform),
{
    let output = if options.output.unicode_len() > 0 {
        join_path(options.output.as_str(), file_name, platform)
    } else {
        get_platform_automatic_path(path, options.invert, platform)
    };
    Options {
        input: String::from_str(path),
        output,
        quality: options.quality,
        aggressiveness: options.aggressiveness,
        reencode: options.reencode.clone(),
        invert: options.invert,
    }
}

/// The options of each run of a batch over the entries of a directory.
pub fn plan_batch(options: &Options, entries: &Vec<DirEntryInfo>, platform: Platform) -> (r: Vec<
    Options,
>)
    ensures
        views(r@) == batch_plan(options@, entries@, platform),
{
    let mut r: Vec<Options> = Vec::new();
    let mut i: usize = 0;
    proof {
        reveal_with_fuel(Seq::filter, 1);
        assert(entries@.subrange(0, 0) =~= Seq::<DirEntryInfo>::empty());
        assert(views(r@) =~= batch_plan(options@, entries@.subrange(0, 0), platform));
    }
    while i < entries.len()
        invariant
            i <= entries@.len(),
            views(r@) == batch_plan(options@, entries@.subrange(0, i as int), platform),
        decreases entries@.len() - i,
    {
        let e = &entries[i];
        let ghost before = entries@.subrange(0, i as int);
        let ghost after = entries@.subrange(0, i + 1);
        proof {
            assert(after.drop_last() =~= before);
            assert(after.last() == *e);
            lemma_plan_step(options@, after, platform);
        }
        if e.is_file && is_video_mime(e.mime.as_str()) {
            let o = derive_file_options(options, e.path.as_str(), e.file_name.as_str(), platform);
            r.push(o);
            assert(views(r@) =~= batch_plan(options@, after, platform));
        } else {
            assert(views(r@) =~= batch_plan(options@, after, platform));
        }
        i = i + 1;
    }
    assert(entries@.subrange(0, entries@.len() as int) =~= entries@);
    r
}

/// Whether `path` is the path of a video entry.
pub open spec fn is_video_entry_path(entries: Seq<DirEntryInfo>, path: Seq<char>) -> bool {
    exists|j: int| 0 <= j < entries.len() && #[trigger] entries[j].path@ == path && is_video_entry(entries[j])
}

/// A batch runs exactly the video entries of the directory: as many runs as
/// such entries, each on the path of one of them.
pub proof fn lemma_batch_only_videos(o: OptionsView, entries: Seq<DirEntryInfo>, platform: Platform)
    ensures
        batch_plan(o, entries, platform).len() == entries.filter(
            |e: DirEntryInfo| is_video_entry(e),
        ).len(),
        forall|k: int|
            0 <= k < batch_plan(o, entries, platform).len() ==> is_video_entry_path(
                entries,
                #[trigger] batch_plan(o, entries, platform)[k].input,
            ),
{
    let pred = |e: DirEntryInfo| is_video_entry(e);
    let kept = entries.filter(pred);
    assert forall|k: int| 0 <= k < batch_plan(o, entries, platform).len() implies is_video_entry_path(
        entries,
        #[trigger] batch_plan(o, entries, platform)[k].input,
    ) by {
        entries.lemma_filter_pred(pred, k);
        entries.lemma_filter_contains_rev(pred, kept[k]);
        let j = choose|j: int| 0 <= j < entries.len() && entries[j] == kept[k];
        assert(entries[j].path@ == batch_plan(o, entries, platform)[k].input);
    }
}

/// Where a file's run stands: each stage is entered once, in order.
#[derive(Clone, Copy, Debug, PartialEq, Eq, Structural)]
pub enum Stage {
    Idle,
    Prepared,
    Generated,
    Rendered,
}

/// The native call to make next, with what to hand to it.
#[derive(Debug, PartialEq, Eq)]
pub enum Action {
    /// Stage the input with the render module.
    Prepare { input: String },
    /// Detect the cuts with the generator module.
    Generate { input: String, aggressiveness: i32, invert: bool },
    /// Re-encode with the render module, using the staging token.
    Render { token: String, output: String, quality: i32 },
    /// Nothing is left to do for this file.
    Done,
}

/// One file's run through prepare, generate and render.
pub struct FileRun {
    options: Options,
    stage: Stage,
    token: String,
}

impl FileRun {
    pub closed spec fn options_view(&self) -> OptionsView {
        self.options@
    }

    pub closed spec fn stage_view(&self) -> Stage {
        self.stage
    }

    /// The staging token, once the input was prepared.
    pub closed spec fn token_view(&self) -> Seq<char> {
        self.token@
    }

    pub fn new(options: Options) -> (r: Self)
        ensures
            r.options_view() == options@,
            r.stage_view() == Stage::Idle,
    {
        FileRun { options, stage: Stage::Idle, token: String::new() }
    }

    pub fn stage(&self) -> (r: Stage)
        ensures
            r == self.stage_view(),
    {
        self.stage
    }

    /// The options of this run.
    pub fn options(&self) -> (r: &Options)
        ensures
            r@ == self.options_view(),
    {
        &self.options
    }

    /// The call that the current stage asks for. Every string handed across
    /// the boundary is checked first: one holding a NUL character gives
    /// `MarshalError`.
    pub fn next_action(&self) -> (r: Result<Action, ModuleError>)
        ensures
            self.stage_view() == Stage::Idle ==> {
                if marshallable(self.options_view().input) {
                    r matches Ok(Action::Prepare { input }) && input@ == self.options_view().input
                } else {
                    r == Err::<Action, ModuleError>(ModuleError::MarshalError)
                }
            },
            self.stage_view() == Stage::Prepared ==> {
                if marshallable(self.options_view().input) {
                    r matches Ok(Action::Generate { input, aggressiveness, invert }) && input@
                        == self.options_view().input && aggressiveness
                        == self.options_view().aggressiveness && invert
                        == self.options_view().invert
                } else {
                    r == Err::<Action, ModuleError>(ModuleError::MarshalError)
                }
            },
            self.stage_view() == Stage::Generated ==> {
                if marshallable(self.token_view()) && marshallable(self.options_view().output) {
                    r matches Ok(Action::Render { token, output, quality }) && token@
                        == self.token_view() && output@ == self.options_view().output && quality
                        == self.options_view().quality
                } else {
                    r == Err::<Action, ModuleError>(ModuleError::MarshalError)
                }
            },
            self.stage_view() == Stage::Rendered ==> r == Ok::<Action, ModuleError>(Action::Done),
    {
        match self.stage {
            Stage::Idle => {
                check_marshal(self.options.input.as_str())?;
                Ok(Action::Prepare { input: self.options.input.clone() })
            },
            Stage::Prepared => {
                check_marshal(self.options.input.as_str())?;
                Ok(
                    Action::Generate {
                        input: self.options.input.clone(),
                        aggressiveness: self.options.aggressiveness as i32,
                        invert: self.options.invert,
                    },
                )
            },
            Stage::Generated => {
                check_marshal(self.token.as_str())?;
                check_marshal(self.options.output.as_str())?;
                Ok(
                    Action::Render {
                        token: self.token.clone(),
                        output: self.options.output.clone(),
                        quality: self.options.quality as i32,
                    },
                )
            },
            Stage::Rendered => Ok(Action::Done),
        }
    }

    /// The render module staged the input under `token`.
    pub fn prepared(&mut self, token: String)
        requires
            old(self).stage_view() == Stage::Idle,
        ensures
            final(self).stage_view() == Stage::Prepared,
            final(self).token_view() == token@,
            final(self).options_view() == old(self).options_view(),
    {
        self.stage = Stage::Prepared;
        self.token = token;
    }

    /// The generator module returned the cuts.
    pub fn generated(&mut self)
        requires
            old(self).stage_view() == Stage::Prepared,
        ensures
            final(self).stage_view() == Stage::Generated,
            final(self).token_view() == old(self).token_view(),
            final(self).options_view() == old(self).options_view(),
    {
        self.stage = Stage::Generated;
    }

    /// The render module wrote the output. The file's bars are dropped from
    /// `progress`; returns how many, so that the display finishes as many.
    pub fn rendered(&mut self, progress: &mut ProgressRegistry) -> (r: usize)
        requires
            old(self).stage_view() == Stage::Generated,
        ensures
            final(self).stage_view() == Stage::Rendered,
            final(self).options_view() == old(self).options_view(),
            r == old(progress).view().len(),
            final(progress).view() == Seq::<(Seq<char>, u64)>::empty(),
            final(progress).wf(),
    {
        self.stage = Stage::Rendered;
        progress.finish_file()
    }
}

} // verus!
