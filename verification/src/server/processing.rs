//! What the server does with a file once it has arrived: one step, or a
//! list of steps carried out in order until one fails.
//!
//! A step is a command line or a directive on the filesystem.  Its text may
//! hold placeholders, which are filled from the file being processed.

use crate::paths::{parse, render, stem_of};
use crate::protocol::{FileSpec, FileSpecView};
use crate::substitute::{
    replace_os_strings, replacement_views, substituted, Replacement, ReplacementView,
};
use crate::text::views;
use vstd::prelude::*;
use vstd::string::StringSliceAdditionalSpecFns;
use vstd::utf8::encode_utf8;

verus! {

/// One step of the processing.
#[derive(Debug)]
pub enum Step {
    Mkdir { create_directory: String },
    DeleteFile { delete_file: String },
    DeleteDirectory { delete_directory: String },
    /// A program and its arguments.
    ExternalCommand(Vec<String>),
}

/// What a `Step` says.
pub enum StepView {
    Mkdir { create_directory: Seq<char> },
    DeleteFile { delete_file: Seq<char> },
    DeleteDirectory { delete_directory: Seq<char> },
    ExternalCommand(Seq<Seq<char>>),
}

impl View for Step {
    type V = StepView;

    open spec fn view(&self) -> StepView {
        match self {
            Step::Mkdir { create_directory } => StepView::Mkdir {
                create_directory: create_directory@,
            },
            Step::DeleteFile { delete_file } => StepView::DeleteFile { delete_file: delete_file@ },
            Step::DeleteDirectory { delete_directory } => StepView::DeleteDirectory {
                delete_directory: delete_directory@,
            },
            Step::ExternalCommand(segments) => StepView::ExternalCommand(views(segments@)),
        }
    }
}

/// What carrying out a step comes to, with its placeholders filled.
#[derive(Debug)]
pub enum StepAction {
    /// Create the directory and those above it.
    CreateDirectory(Vec<u8>),
    /// Remove the file.
    DeleteFile(Vec<u8>),
    /// Remove the directory and all that is in it.
    DeleteDirectory(Vec<u8>),
    /// Run the program with the arguments; it succeeds if it exits with 0.
    Spawn { program: String, args: Vec<Vec<u8>> },
}

/// What a `StepAction` says.
pub enum StepActionView {
    CreateDirectory(Seq<u8>),
    DeleteFile(Seq<u8>),
    DeleteDirectory(Seq<u8>),
    Spawn { program: Seq<char>, args: Seq<Seq<u8>> },
}

/// The views of a sequence of byte strings.
pub open spec fn byte_views(v: Seq<Vec<u8>>) -> Seq<Seq<u8>> {
    Seq::new(v.len(), |i: int| v[i]@)
}

impl View for StepAction {
    type V = StepActionView;

    open spec fn view(&self) -> StepActionView {
        match self {
            StepAction::CreateDirectory(p) => StepActionView::CreateDirectory(p@),
            StepAction::DeleteFile(p) => StepActionView::DeleteFile(p@),
            StepAction::DeleteDirectory(p) => StepActionView::DeleteDirectory(p@),
            StepAction::Spawn { program, args } => StepActionView::Spawn {
                program: program@,
                args: byte_views(args@),
            },
        }
    }
}

/// The placeholders that a step may hold and what takes their place for the
/// file `file` stored at `server_path`: the digest text, the path on the
/// server, the client's name, the file's directory at the client and its
/// name there without the extension.
pub open spec fn replacements_for(file: FileSpecView, server_path: Seq<char>) -> Seq<
    ReplacementView,
> {
    seq![
        ReplacementView { token: "{hash}"@, value: encode_utf8(file.digest.hex) },
        ReplacementView { token: "{server_path}"@, value: encode_utf8(server_path) },
        ReplacementView { token: "{client_name}"@, value: encode_utf8(file.client) },
        ReplacementView {
            token: "{client_relative_directory}"@,
            value: encode_utf8(render(parse(file.path))),
        },
        ReplacementView { token: "{client_file_stem}"@, value: encode_utf8(stem_of(file.filename)) },
    ]
}

/// `text` with the placeholders filled.
pub open spec fn filled(text: Seq<char>, replacements: Seq<ReplacementView>) -> Seq<u8> {
    substituted(encode_utf8(text), replacements)
}

/// What carrying out `step` comes to under the given replacements.
pub open spec fn action_of(step: StepView, replacements: Seq<ReplacementView>) -> StepActionView {
    match step {
        StepView::Mkdir { create_directory } => StepActionView::CreateDirectory(
            filled(create_directory, replacements),
        ),
        StepView::DeleteFile { delete_file } => StepActionView::DeleteFile(
            filled(delete_file, replacements),
        ),
        StepView::DeleteDirectory { delete_directory } => StepActionView::DeleteDirectory(
            filled(delete_directory, replacements),
        ),
        StepView::ExternalCommand(segments) => StepActionView::Spawn {
            program: segments[0],
            args: Seq::new(
                (segments.len() - 1) as nat,
                |i: int| filled(segments[i + 1], replacements),
            ),
        },
    }
}

/// The replacements for one file.
pub fn replacements(file: &FileSpec, server_path: &str) -> (out: Vec<Replacement>)
    ensures
        replacement_views(out@) == replacements_for(file@, server_path@),
{
    let rel_dir = file.relative_directory();
    let stem = file.file_stem();
    let mut out: Vec<Replacement> = Vec::new();
    out.push(Replacement { token: "{hash}".to_owned(), value: file.hash().as_bytes_vec() });
    out.push(Replacement { token: "{server_path}".to_owned(), value: server_path.as_bytes_vec() });
    out.push(
        Replacement { token: "{client_name}".to_owned(), value: file.client.as_str().as_bytes_vec() },
    );
    out.push(
        Replacement {
            token: "{client_relative_directory}".to_owned(),
            value: rel_dir.as_str().as_bytes_vec(),
        },
    );
    out.push(
        Replacement { token: "{client_file_stem}".to_owned(), value: stem.as_str().as_bytes_vec() },
    );
    proof {
        assert(replacement_views(out@) =~= replacements_for(file@, server_path@));
    }
    out
}

impl Step {
    /// A command line names a program.
    pub open spec fn wf(&self) -> bool {
        self@ matches StepView::ExternalCommand(segments) ==> segments.len() >= 1
    }

    /// Whether a command line names a program.
    pub fn is_valid(&self) -> (yes: bool)
        ensures
            yes == self.wf(),
    {
        match self {
            Step::ExternalCommand(segments) => segments.len() >= 1,
            _ => true,
        }
    }

    /// What carrying out the step comes to for `file`, stored on the server
    /// at `server_path`.
    pub fn plan(&self, file: &FileSpec, server_path: &str) -> (action: StepAction)
        requires
            self.wf(),
        ensures
            action@ == action_of(self@, replacements_for(file@, server_path@)),
    {
        let reps = replacements(file, server_path);
        match self {
            Step::Mkdir { create_directory } => StepAction::CreateDirectory(
                replace_os_strings(create_directory.as_str(), &reps),
            ),
            Step::DeleteFile { delete_file } => StepAction::DeleteFile(
                replace_os_strings(delete_file.as_str(), &reps),
            ),
            Step::DeleteDirectory { delete_directory } => StepAction::DeleteDirectory(
                replace_os_strings(delete_directory.as_str(), &reps),
            ),
            Step::ExternalCommand(segments) => {
                let mut args: Vec<Vec<u8>> = Vec::new();
                let mut i: usize = 1;
                while i < segments.len()
                    invariant
                        1 <= i <= segments.len(),
                        args@.len() == i - 1,
                        forall|j: int|
                            0 <= j < args@.len() ==> (#[trigger] args@[j])@ == filled(
                                segments@[j + 1]@,
                                replacement_views(reps@),
                            ),
                    decreases segments.len() - i,
                {
                    args.push(replace_os_strings(segments[i].as_str(), &reps));
                    i += 1;
                }
                let action = StepAction::Spawn { program: segments[0].clone(), args };
                proof {
                    assert(action@->Spawn_args =~= action_of(
                        self@,
                        replacements_for(file@, server_path@),
                    )->Spawn_args);
                }
                action
            },
        }
    }
}

/// One step, or several.
#[derive(Debug)]
pub enum InnerProc {
    One(Step),
    List(Vec<Step>),
}

/// The processing that the server applies to each file.
#[derive(Debug)]
pub struct Processing(pub InnerProc);

/// The views of a sequence of steps.
pub open spec fn step_views(v: Seq<Step>) -> Seq<StepView> {
    Seq::new(v.len(), |i: int| v[i]@)
}

impl View for Processing {
    type V = Seq<StepView>;

    open spec fn view(&self) -> Seq<StepView> {
        match self.0 {
            InnerProc::One(step) => seq![step@],
            InnerProc::List(steps) => step_views(steps@),
        }
    }
}

/// How far a run of the processing has come.
#[derive(Clone, Copy, Debug, PartialEq, Eq, Structural)]
pub enum Progress {
    /// The step at this position is to be carried out next.
    Next(usize),
    /// Every step has been carried out, and none failed.
    Succeeded,
    /// A step failed; those after it were not carried out.
    Failed,
}

/// Where a run stands once `done` steps have succeeded, of `len`.
pub open spec fn progress_at(done: int, len: int) -> Progress {
    if done < len {
        Progress::Next(done as usize)
    } else {
        Progress::Succeeded
    }
}

impl Processing {
    /// Every command line names a program.
    pub open spec fn wf(&self) -> bool {
        match self.0 {
            InnerProc::One(step) => step.wf(),
            InnerProc::List(steps) => forall|i: int| 0 <= i < steps@.len() ==> (#[trigger] steps@[i]).wf(),
        }
    }

    /// Whether every command line names a program.
    pub fn is_valid(&self) -> (yes: bool)
        ensures
            yes == self.wf(),
    {
        match &self.0 {
            InnerProc::One(step) => step.is_valid(),
            InnerProc::List(steps) => {
                let mut i: usize = 0;
                while i < steps.len()
                    invariant
                        i <= steps.len(),
                        self.0 == InnerProc::List(*steps),
                        forall|j: int| 0 <= j < i ==> (#[trigger] steps@[j]).wf(),
                    decreases steps.len() - i,
                {
                    if !steps[i].is_valid() {
                        proof {
                            assert(self.0 matches InnerProc::List(s) && !s@[i as int].wf());
                        }
                        return false;
                    }
                    i += 1;
                }
                true
            },
        }
    }

    /// The number of steps.
    pub fn len(&self) -> (n: usize)
        ensures
            n == self@.len(),
    {
        match &self.0 {
            InnerProc::One(_) => 1,
            InnerProc::List(steps) => steps.len(),
        }
    }

    /// The step at position `i`.
    pub fn step(&self, i: usize) -> (step: &Step)
        requires
            i < self@.len(),
        ensures
            step@ == self@[i as int],
            self.wf() ==> step.wf(),
    {
        match &self.0 {
            InnerProc::One(step) => step,
            InnerProc::List(steps) => &steps[i],
        }
    }

    /// Where a run begins.
    pub fn start(&self) -> (progress: Progress)
        ensures
            progress == progress_at(0, self@.len() as int),
    {
        if self.len() == 0 {
            Progress::Succeeded
        } else {
            Progress::Next(0)
        }
    }

    /// Where a run stands after the step at position `i` was carried out,
    /// with success or without: the run fails on the first step that fails.
    pub fn after(&self, i: usize, succeeded: bool) -> (progress: Progress)
        requires
            i < self@.len(),
        ensures
            progress == if succeeded {
                progress_at(i + 1, self@.len() as int)
            } else {
                Progress::Failed
            },
    {
        let n = self.len();
        if !succeeded {
            Progress::Failed
        } else if i + 1 < n {
            Progress::Next(i + 1)
        } else {
            Progress::Succeeded
        }
    }
}

/// Where a run of `len` steps stands once its steps have ended as
/// `results` say, in order; results of steps that are not carried out are
/// not looked at.
pub open spec fn progress_after(len: int, results: Seq<bool>) -> Progress
    decreases results.len(),
{
    if results.len() == 0 {
        progress_at(0, len)
    } else {
        match progress_after(len, results.drop_last()) {
            Progress::Next(i) => if results.last() {
                progress_at(i + 1, len)
            } else {
                Progress::Failed
            },
            ended => ended,
        }
    }
}

/// A run fails on its first step that fails, and succeeds once every step
/// has succeeded.
pub proof fn lemma_run_fails_on_first_failure(len: int, results: Seq<bool>)
    requires
        0 <= len <= usize::MAX,
    ensures
        progress_after(len, results) == Progress::Failed <==> exists|i: int|
            0 <= i < len && i < results.len() && !#[trigger] results[i] && forall|j: int|
                0 <= j < i ==> results[j],
        progress_after(len, results) == Progress::Succeeded <==> len <= results.len() && forall|
            j: int,
        | 0 <= j < len ==> results[j],
        progress_after(len, results) matches Progress::Next(k) ==> k == results.len() && k < len
            && forall|j: int| 0 <= j < results.len() ==> results[j],
    decreases results.len(),
{
    if results.len() > 0 {
        let front = results.drop_last();
        lemma_run_fails_on_first_failure(len, front);
        let n = front.len() as int;
        match progress_after(len, front) {
            Progress::Next(k) => {
                assert forall|j: int| 0 <= j < n implies results[j] by {
                    assert(front[j] == results[j]);
                }
                if results.last() {
                    assert forall|j: int| 0 <= j < results.len() implies results[j] by {}
                } else {
                    assert(!results[n]);
                }
            },
            Progress::Failed => {
                let i = choose|i: int|
                    0 <= i < len && i < front.len() && !#[trigger] front[i] && forall|j: int|
                        0 <= j < i ==> front[j];
                assert(!results[i]);
                assert forall|j: int| 0 <= j < i implies results[j] by {
                    assert(front[j] == results[j]);
                }
                assert(!(forall|j: int| 0 <= j < len ==> results[j])) by {
                    if len > i {
                        assert(!results[i]);
                    }
                }
            },
            Progress::Succeeded => {
                assert forall|j: int| 0 <= j < len implies results[j] by {
                    assert(front[j] == results[j]);
                }
                if exists|i: int|
                    0 <= i < len && i < results.len() && !#[trigger] results[i] && forall|j: int|
                        0 <= j < i ==> results[j] {
                    let i = choose|i: int|
                        0 <= i < len && i < results.len() && !#[trigger] results[i] && forall|
                            j: int,
                        | 0 <= j < i ==> results[j];
                    assert(results[i]);
                }
            },
        }
        if progress_after(len, results) == Progress::Failed && !(progress_after(len, front)
            == Progress::Failed) {
            assert(!results[n]);
        }
        if exists|i: int|
            0 <= i < len && i < results.len() && !#[trigger] results[i] && forall|j: int|
                0 <= j < i ==> results[j] {
            let i = choose|i: int|
                0 <= i < len && i < results.len() && !#[trigger] results[i] && forall|j: int|
                    0 <= j < i ==> results[j];
            if i < n {
                assert(!front[i]);
                assert forall|j: int| 0 <= j < i implies front[j] by {
                    assert(front[j] == results[j]);
                }
            }
        }
        if len <= results.len() && (forall|j: int| 0 <= j < len ==> results[j]) {
            if len <= n {
                assert forall|j: int| 0 <= j < len implies front[j] by {
                    assert(front[j] == results[j]);
                }
            }
        }
    }
}

} // verus!
