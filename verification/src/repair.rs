//! The repair coordinator: what to do next when a container is opened,
//! found unreadable, remuxed by an outside tool, and opened once more.
//!
//! The coordinator performs nothing itself. It is a state machine: the
//! caller carries out each action and reports what came of it as an event.

use vstd::prelude::*;
use vstd::string::*;
use crate::format::ContainerError;

verus! {

/// Why the pipeline gave up on a file.
#[derive(Debug, PartialEq, Eq)]
pub enum PipelineError {
    /// The container is readable, but of an encoding that is not decoded.
    UnsupportedFormat,
    /// The repair tool could not be launched.
    RepairToolUnavailable,
    /// The repair tool ran and reported failure; its diagnostic text.
    RepairToolFailed(String),
    /// The repaired file could not be moved over the original; the reason.
    ReplaceFailed(String),
    /// The container was repaired and is unreadable still.
    StillUnreadableAfterRepair,
}

/// What the caller is asked to do.
#[derive(Debug, PartialEq, Eq)]
pub enum Action {
    /// Open the container at `path`.
    Open { path: String },
    /// Run the repair tool: copy the audio stream of `source` into `target`.
    RunTool { source: String, target: String },
    /// Delete the file at `path`.
    DiscardTemporary { path: String },
    /// Rename `from` to `to`, in one atomic step.
    Replace { from: String, to: String },
    /// Stop, and hand on the container that was opened last.
    Succeed,
    /// Stop, with this error.
    Fail(PipelineError),
}

/// What came of the action that was asked for last.
#[derive(Debug, PartialEq, Eq)]
pub enum Event {
    /// The container was opened and decoded.
    Opened,
    /// The container could not be opened.
    OpenFailed(ContainerError),
    /// The repair tool could not be launched.
    ToolNotLaunched,
    /// The repair tool ran to its end; `diagnostic` is its error stream.
    ToolExited { success: bool, diagnostic: String },
    /// The temporary file is gone, or could not be deleted.
    TemporaryDiscarded,
    /// The temporary file now stands in place of the original.
    Replaced,
    /// The rename failed; the reason.
    ReplaceFailed(String),
}

/// Which action a repair attempt waits on.
#[derive(Debug, PartialEq, Eq)]
pub enum Stage {
    /// The first `Open`.
    FirstOpen,
    /// `RunTool`.
    Remux,
    /// `DiscardTemporary`, after the tool failed with this diagnostic.
    Discard(String),
    /// `Replace`.
    Replacement,
    /// The second and last `Open`.
    SecondOpen,
    /// Nothing: `Succeed` or `Fail` was handed out.
    Finished,
}

/// One file on its way through the coordinator: the file itself, the
/// sibling that a repair is written to, and how far things have come.
#[derive(Debug, PartialEq, Eq)]
pub struct RepairAttempt {
    /// The file to open, and the only one to replace.
    pub original_path: String,
    /// Where the repair tool writes; never the original.
    pub temporary_path: String,
    /// Which action the attempt waits on.
    pub stage: Stage,
}

/// The kinds of action, without what they carry.
#[derive(Clone, Copy, Debug, PartialEq, Eq, Structural)]
pub enum ActionKind {
    Open,
    RunTool,
    DiscardTemporary,
    Replace,
    Succeed,
    Fail,
}

impl Action {
    /// The kind of the action.
    pub open spec fn kind(self) -> ActionKind {
        match self {
            Action::Open { .. } => ActionKind::Open,
            Action::RunTool { .. } => ActionKind::RunTool,
            Action::DiscardTemporary { .. } => ActionKind::DiscardTemporary,
            Action::Replace { .. } => ActionKind::Replace,
            Action::Succeed => ActionKind::Succeed,
            Action::Fail(_) => ActionKind::Fail,
        }
    }

    /// The file that carrying out the action may create, change or remove.
    pub open spec fn written_path(self) -> Option<String> {
        match self {
            Action::RunTool { target, .. } => Some(target),
            Action::DiscardTemporary { path } => Some(path),
            Action::Replace { to, .. } => Some(to),
            _ => None,
        }
    }
}

impl RepairAttempt {
    /// The temporary file is another file than the original. Where it is
    /// not, a repair would write over the file that it reads, so none is
    /// begun: an unreadable original then ends the attempt as a repair tool
    /// that cannot be had does.
    pub open spec fn valid(self) -> bool {
        self.original_path@ != self.temporary_path@
    }

    /// The attempt at another stage.
    pub open spec fn at(self, stage: Stage) -> RepairAttempt {
        RepairAttempt {
            original_path: self.original_path,
            temporary_path: self.temporary_path,
            stage,
        }
    }

    /// The action that opens the original.
    pub open spec fn open_action(self) -> Action {
        Action::Open { path: self.original_path }
    }

    /// The action that runs the repair tool.
    pub open spec fn tool_action(self) -> Action {
        Action::RunTool { source: self.original_path, target: self.temporary_path }
    }

    /// The action that deletes the temporary file.
    pub open spec fn discard_action(self) -> Action {
        Action::DiscardTemporary { path: self.temporary_path }
    }

    /// The action that puts the temporary file in the original's place.
    pub open spec fn replace_action(self) -> Action {
        Action::Replace { from: self.temporary_path, to: self.original_path }
    }

    /// The transition: the attempt at its next stage and the action to
    /// carry out, or `None` where the event cannot answer the action that
    /// the attempt waits on.
    pub open spec fn spec_step(self, event: Event) -> Option<(RepairAttempt, Action)> {
        match (self.stage, event) {
            (Stage::FirstOpen, Event::Opened) => Some((self.at(Stage::Finished), Action::Succeed)),
            (Stage::FirstOpen, Event::OpenFailed(ContainerError::Unreadable)) => if self.valid() {
                Some((self.at(Stage::Remux), self.tool_action()))
            } else {
                Some(
                    (
                        self.at(Stage::Finished),
                        Action::Fail(PipelineError::RepairToolUnavailable),
                    ),
                )
            },
            (Stage::FirstOpen, Event::OpenFailed(ContainerError::UnsupportedFormat)) => Some(
                (self.at(Stage::Finished), Action::Fail(PipelineError::UnsupportedFormat)),
            ),
            (Stage::Remux, Event::ToolNotLaunched) => Some(
                (self.at(Stage::Finished), Action::Fail(PipelineError::RepairToolUnavailable)),
            ),
            (Stage::Remux, Event::ToolExited { success, diagnostic }) => if success {
                Some((self.at(Stage::Replacement), self.replace_action()))
            } else {
                Some((self.at(Stage::Discard(diagnostic)), self.discard_action()))
            },
            (Stage::Discard(diagnostic), Event::TemporaryDiscarded) => Some(
                (
                    self.at(Stage::Finished),
                    Action::Fail(PipelineError::RepairToolFailed(diagnostic)),
                ),
            ),
            (Stage::Replacement, Event::Replaced) => Some(
                (self.at(Stage::SecondOpen), self.open_action()),
            ),
            (Stage::Replacement, Event::ReplaceFailed(reason)) => Some(
                (self.at(Stage::Finished), Action::Fail(PipelineError::ReplaceFailed(reason))),
            ),
            (Stage::SecondOpen, Event::Opened) => Some((self.at(Stage::Finished), Action::Succeed)),
            (Stage::SecondOpen, Event::OpenFailed(ContainerError::Unreadable)) => Some(
                (
                    self.at(Stage::Finished),
                    Action::Fail(PipelineError::StillUnreadableAfterRepair),
                ),
            ),
            (Stage::SecondOpen, Event::OpenFailed(ContainerError::UnsupportedFormat)) => Some(
                (self.at(Stage::Finished), Action::Fail(PipelineError::UnsupportedFormat)),
            ),
            _ => None,
        }
    }

    /// Begins an attempt on `original_path`, with `temporary_path` to
    /// repair into: the attempt and its first action, which opens the
    /// original.
    pub fn start(original_path: String, temporary_path: String) -> (r: (RepairAttempt, Action))
        ensures
            r.0 == (RepairAttempt { original_path, temporary_path, stage: Stage::FirstOpen }),
            r.1 == r.0.open_action(),
    {
        let path = original_path.clone();
        (
            RepairAttempt { original_path, temporary_path, stage: Stage::FirstOpen },
            Action::Open { path },
        )
    }

    /// Takes one event: the attempt at its next stage and the action to
    /// carry out, or `None` where the event cannot answer the action that
    /// the attempt waits on.
    pub fn step(self, event: Event) -> (r: Option<(RepairAttempt, Action)>)
        ensures
            r == self.spec_step(event),
    {
        let RepairAttempt { original_path, temporary_path, stage } = self;
        let (next, action) = match stage {
            Stage::FirstOpen => match event {
                Event::Opened => (Stage::Finished, Action::Succeed),
                Event::OpenFailed(ContainerError::Unreadable) => if original_path
                    != temporary_path {
                    (
                        Stage::Remux,
                        Action::RunTool {
                            source: original_path.clone(),
                            target: temporary_path.clone(),
                        },
                    )
                } else {
                    (Stage::Finished, Action::Fail(PipelineError::RepairToolUnavailable))
                },
                Event::OpenFailed(ContainerError::UnsupportedFormat) => (
                    Stage::Finished,
                    Action::Fail(PipelineError::UnsupportedFormat),
                ),
                _ => {
                    return None;
                },
            },
            Stage::Remux => match event {
                Event::ToolNotLaunched => (
                    Stage::Finished,
                    Action::Fail(PipelineError::RepairToolUnavailable),
                ),
                Event::ToolExited { success, diagnostic } => if success {
                    (
                        Stage::Replacement,
                        Action::Replace { from: temporary_path.clone(), to: original_path.clone() },
                    )
                } else {
                    (
                        Stage::Discard(diagnostic),
                        Action::DiscardTemporary { path: temporary_path.clone() },
                    )
                },
                _ => {
                    return None;
                },
            },
            Stage::Discard(diagnostic) => match event {
                Event::TemporaryDiscarded => (
                    Stage::Finished,
                    Action::Fail(PipelineError::RepairToolFailed(diagnostic)),
                ),
                _ => {
                    return None;
                },
            },
            Stage::Replacement => match event {
                Event::Replaced => (Stage::SecondOpen, Action::Open { path: original_path.clone() }),
                Event::ReplaceFailed(reason) => (
                    Stage::Finished,
                    Action::Fail(PipelineError::ReplaceFailed(reason)),
                ),
                _ => {
                    return None;
                },
            },
            Stage::SecondOpen => match event {
                Event::Opened => (Stage::Finished, Action::Succeed),
                Event::OpenFailed(ContainerError::Unreadable) => (
                    Stage::Finished,
                    Action::Fail(PipelineError::StillUnreadableAfterRepair),
                ),
                Event::OpenFailed(ContainerError::UnsupportedFormat) => (
                    Stage::Finished,
                    Action::Fail(PipelineError::UnsupportedFormat),
                ),
                _ => {
                    return None;
                },
            },
            Stage::Finished => {
                return None;
            },
        };
        Some((RepairAttempt { original_path, temporary_path, stage: next }, action))
    }
}

/// The program that repairs a container.
pub fn tool_program() -> (program: &'static str)
    ensures
        program@ == "ffmpeg"@,
{
    "ffmpeg"
}

impl PipelineError {
    /// What to tell the user of the error, for the file at `path`. A
    /// failure of the repair tool is told with the tool's diagnostic text
    /// as it came.
    pub open spec fn spec_message(self, path: Seq<char>) -> Seq<char> {
        match self {
            PipelineError::UnsupportedFormat => "The format of '"@ + path + "' is not supported"@,
            PipelineError::RepairToolUnavailable =>
                "ffmpeg could not be started. Is ffmpeg installed and in your PATH?"@,
            PipelineError::RepairToolFailed(diagnostic) =>
                "ffmpeg failed to repair the file. Is ffmpeg installed and in your PATH?\nffmpeg stderr: "@
                    + diagnostic@,
            PipelineError::ReplaceFailed(reason) => "Failed to replace '"@ + path + "': "@
                + reason@,
            PipelineError::StillUnreadableAfterRepair => "Failed to open the now-repaired file '"@
                + path + "'"@,
        }
    }

    /// What to tell the user of the error, for the file at `path`.
    pub fn message(&self, path: &str) -> (text: String)
        ensures
            text@ == self.spec_message(path@),
    {
        match self {
            PipelineError::UnsupportedFormat => {
                let mut text = String::from_str("The format of '");
                text.append(path);
                text.append("' is not supported");
                text
            },
            PipelineError::RepairToolUnavailable => String::from_str(
                "ffmpeg could not be started. Is ffmpeg installed and in your PATH?",
            ),
            PipelineError::RepairToolFailed(diagnostic) => {
                let mut text = String::from_str(
                    "ffmpeg failed to repair the file. Is ffmpeg installed and in your PATH?\nffmpeg stderr: ",
                );
                text.append(diagnostic.as_str());
                text
            },
            PipelineError::ReplaceFailed(reason) => {
                let mut text = String::from_str("Failed to replace '");
                text.append(path);
                text.append("': ");
                text.append(reason.as_str());
                text
            },
            PipelineError::StillUnreadableAfterRepair => {
                let mut text = String::from_str("Failed to open the now-repaired file '");
                text.append(path);
                text.append("'");
                text
            },
        }
    }
}

/// The arguments that ask the repair tool for a stream copy: read
/// `source`, copy its audio stream as it is, encode nothing anew, and
/// write to `target` even where a file of that name exists.
pub open spec fn spec_tool_arguments(source: Seq<char>, target: Seq<char>) -> Seq<Seq<char>> {
    seq!["-i"@, source, "-c:a"@, "copy"@, "-y"@, target]
}

/// The arguments for one run of the repair tool from `source` to `target`.
pub fn tool_arguments(source: &str, target: &str) -> (arguments: Vec<String>)
    ensures
        arguments@.len() == 6,
        forall|i: int|
            0 <= i < 6 ==> (#[trigger] arguments@[i])@ == spec_tool_arguments(source@, target@)[i],
{
    let mut arguments: Vec<String> = Vec::new();
    arguments.push(String::from_str("-i"));
    arguments.push(String::from_str(source));
    arguments.push(String::from_str("-c:a"));
    arguments.push(String::from_str("copy"));
    arguments.push(String::from_str("-y"));
    arguments.push(String::from_str(target));
    arguments
}

/// The actions that an attempt hands out in answer to `events`: one per
/// event, up to the first event that does not fit.
pub open spec fn run(attempt: RepairAttempt, events: Seq<Event>) -> Seq<Action>
    decreases events.len(),
{
    if events.len() == 0 {
        Seq::empty()
    } else {
        match attempt.spec_step(events[0]) {
            None => Seq::empty(),
            Some((next, action)) => seq![action] + run(next, events.skip(1)),
        }
    }
}

/// How many of `actions` are of the given kind.
pub open spec fn occurrences(actions: Seq<Action>, kind: ActionKind) -> nat
    decreases actions.len(),
{
    if actions.len() == 0 {
        0
    } else {
        occurrences(actions.drop_last(), kind) + if actions.last().kind() == kind {
            1nat
        } else {
            0nat
        }
    }
}

/// How often an attempt at `stage` can still ask for an action of the
/// given kind.
pub open spec fn budget(stage: Stage, kind: ActionKind) -> nat {
    match kind {
        ActionKind::RunTool => if stage is FirstOpen {
            1
        } else {
            0
        },
        ActionKind::Replace | ActionKind::DiscardTemporary => if stage is FirstOpen
            || stage is Remux {
            1
        } else {
            0
        },
        ActionKind::Open => if stage is FirstOpen || stage is Remux || stage is Replacement {
            1
        } else {
            0
        },
        ActionKind::Succeed => if stage is FirstOpen || stage is Remux || stage is Replacement
            || stage is SecondOpen {
            1
        } else {
            0
        },
        ActionKind::Fail => if stage is Finished {
            0
        } else {
            1
        },
    }
}

/// Counting in a sequence that begins with `first`.
proof fn lemma_occurrences_cons(first: Action, rest: Seq<Action>, kind: ActionKind)
    ensures
        occurrences(seq![first] + rest, kind) == occurrences(rest, kind) + if first.kind() == kind {
            1nat
        } else {
            0nat
        },
    decreases rest.len(),
{
    let all = seq![first] + rest;
    if rest.len() == 0 {
        assert(all.drop_last() =~= Seq::<Action>::empty());
        assert(occurrences(all.drop_last(), kind) == 0);
    } else {
        assert(all.drop_last() =~= seq![first] + rest.drop_last());
        lemma_occurrences_cons(first, rest.drop_last(), kind);
    }
}

/// No run asks for a kind of action more often than the budget of its
/// stage allows, and no run is longer than its events.
pub proof fn lemma_run_within_budget(attempt: RepairAttempt, events: Seq<Event>, kind: ActionKind)
    ensures
        occurrences(run(attempt, events), kind) <= budget(attempt.stage, kind),
        run(attempt, events).len() <= events.len(),
    decreases events.len(),
{
    if events.len() > 0 {
        match attempt.spec_step(events[0]) {
            None => {},
            Some((next, first)) => {
                lemma_run_within_budget(next, events.skip(1), kind);
                lemma_occurrences_cons(first, run(next, events.skip(1)), kind);
            },
        }
    }
}

/// After its first `Open` an attempt asks for the repair tool at most
/// once, replaces the original at most once, and opens it at most once
/// more, whatever the events.
pub proof fn lemma_repair_attempted_once(attempt: RepairAttempt, events: Seq<Event>)
    requires
        attempt.stage is FirstOpen,
    ensures
        occurrences(run(attempt, events), ActionKind::RunTool) <= 1,
        occurrences(run(attempt, events), ActionKind::Replace) <= 1,
        occurrences(run(attempt, events), ActionKind::DiscardTemporary) <= 1,
        occurrences(run(attempt, events), ActionKind::Open) <= 1,
{
    lemma_run_within_budget(attempt, events, ActionKind::RunTool);
    lemma_run_within_budget(attempt, events, ActionKind::Replace);
    lemma_run_within_budget(attempt, events, ActionKind::DiscardTemporary);
    lemma_run_within_budget(attempt, events, ActionKind::Open);
}

/// A container that opens at once is handed on at once: the run asks for
/// nothing else, so neither for the repair tool nor for a replacement.
pub proof fn lemma_readable_file_never_repaired(attempt: RepairAttempt, events: Seq<Event>)
    requires
        attempt.stage is FirstOpen,
        events.len() >= 1,
        events[0] == Event::Opened,
    ensures
        run(attempt, events) == seq![Action::Succeed],
{
    assert(run(attempt.at(Stage::Finished), events.skip(1)) =~= Seq::<Action>::empty());
    assert(run(attempt, events) =~= seq![Action::Succeed]);
}

/// An unreadable container has the repair tool run, as the first thing
/// and once: from the original into the temporary file.
pub proof fn lemma_unreadable_file_repaired(attempt: RepairAttempt, events: Seq<Event>)
    requires
        attempt.valid(),
        attempt.stage is FirstOpen,
        events.len() >= 1,
        events[0] == Event::OpenFailed(ContainerError::Unreadable),
    ensures
        run(attempt, events).len() >= 1,
        run(attempt, events)[0] == attempt.tool_action(),
        occurrences(run(attempt, events), ActionKind::RunTool) == 1,
{
    let next = attempt.at(Stage::Remux);
    let rest = run(next, events.skip(1));
    lemma_run_within_budget(next, events.skip(1), ActionKind::RunTool);
    lemma_occurrences_cons(attempt.tool_action(), rest, ActionKind::RunTool);
}

/// Without a temporary file of its own an attempt changes no file: it
/// ends with its first answer, in success or in failure.
pub proof fn lemma_no_repair_without_temporary(attempt: RepairAttempt, events: Seq<Event>)
    requires
        !attempt.valid(),
        attempt.stage is FirstOpen,
    ensures
        run(attempt, events).len() <= 1,
        run(attempt, events).len() == 1 ==> run(attempt, events)[0] is Succeed || run(
            attempt,
            events,
        )[0] is Fail,
{
    if events.len() > 0 {
        assert(run(attempt.at(Stage::Finished), events.skip(1)) =~= Seq::<Action>::empty());
    }
}

/// Every action of a run is aimed at the attempt's own two files.
pub proof fn lemma_actions_keep_to_the_paths(attempt: RepairAttempt, events: Seq<Event>, i: int)
    requires
        0 <= i < run(attempt, events).len(),
    ensures
        ({
            let action = run(attempt, events)[i];
            ||| action == attempt.open_action()
            ||| action == attempt.tool_action()
            ||| action == attempt.discard_action()
            ||| action == attempt.replace_action()
            ||| action is Succeed
            ||| action is Fail
        }),
    decreases events.len(),
{
    match attempt.spec_step(events[0]) {
        None => {},
        Some((next, first)) => {
            if i > 0 {
                lemma_actions_keep_to_the_paths(next, events.skip(1), i - 1);
            }
        },
    }
}

/// The original is written to by its replacement and by nothing else:
/// the tool writes to the temporary file, and what is discarded is the
/// temporary file.
pub proof fn lemma_original_only_replaced(attempt: RepairAttempt, events: Seq<Event>, i: int)
    requires
        attempt.valid(),
        0 <= i < run(attempt, events).len(),
        run(attempt, events)[i].written_path() == Some(attempt.original_path),
    ensures
        run(attempt, events)[i] == attempt.replace_action(),
{
    lemma_actions_keep_to_the_paths(attempt, events, i);
}

/// The original is replaced only in answer to the tool's success: each
/// `Replace` of a run answers a `ToolExited` event whose `success` holds.
pub proof fn lemma_replaced_only_on_success(attempt: RepairAttempt, events: Seq<Event>, i: int)
    requires
        0 <= i < run(attempt, events).len(),
        run(attempt, events)[i] is Replace,
    ensures
        i < events.len(),
        events[i] is ToolExited,
        events[i]->success,
    decreases events.len(),
{
    match attempt.spec_step(events[0]) {
        None => {},
        Some((next, first)) => {
            if i > 0 {
                lemma_replaced_only_on_success(next, events.skip(1), i - 1);
            }
        },
    }
}

/// When the tool fails, the temporary file is discarded, the error carries
/// the tool's diagnostic text as it came, and the original is never
/// replaced.
pub proof fn lemma_failed_tool_leaves_original(
    attempt: RepairAttempt,
    events: Seq<Event>,
    diagnostic: String,
)
    requires
        attempt.valid(),
        attempt.stage is FirstOpen,
        events.len() >= 3,
        events[0] == Event::OpenFailed(ContainerError::Unreadable),
        events[1] == (Event::ToolExited { success: false, diagnostic }),
        events[2] == Event::TemporaryDiscarded,
    ensures
        run(attempt, events) == seq![
            attempt.tool_action(),
            attempt.discard_action(),
            Action::Fail(PipelineError::RepairToolFailed(diagnostic)),
        ],
        occurrences(run(attempt, events), ActionKind::Replace) == 0,
{
    let failure = Action::Fail(PipelineError::RepairToolFailed(diagnostic));
    let e1 = events.skip(1);
    let e2 = e1.skip(1);
    let e3 = e2.skip(1);
    assert(run(attempt.at(Stage::Finished), e3) =~= Seq::<Action>::empty());
    assert(run(attempt.at(Stage::Discard(diagnostic)), e2) =~= seq![failure]);
    assert(run(attempt.at(Stage::Remux), e1) =~= seq![attempt.discard_action(), failure]);
    let all = run(attempt, events);
    assert(all =~= seq![attempt.tool_action(), attempt.discard_action(), failure]);
    reveal_with_fuel(occurrences, 4);
    assert(all.drop_last() =~= seq![attempt.tool_action(), attempt.discard_action()]);
    assert(all.drop_last().drop_last() =~= seq![attempt.tool_action()]);
    assert(all.drop_last().drop_last().drop_last() =~= Seq::<Action>::empty());
}

/// When the tool succeeds, the original is replaced and opened exactly
/// once more, and what that open gives is final: a second failure ends
/// the run with no further repair.
pub proof fn lemma_successful_tool_retries_once(
    attempt: RepairAttempt,
    events: Seq<Event>,
    diagnostic: String,
)
    requires
        attempt.valid(),
        attempt.stage is FirstOpen,
        events.len() >= 4,
        events[0] == Event::OpenFailed(ContainerError::Unreadable),
        events[1] == (Event::ToolExited { success: true, diagnostic }),
        events[2] == Event::Replaced,
        events[3] == Event::Opened || events[3] == Event::OpenFailed(ContainerError::Unreadable),
    ensures
        run(attempt, events) == seq![
            attempt.tool_action(),
            attempt.replace_action(),
            attempt.open_action(),
            if events[3] == Event::Opened {
                Action::Succeed
            } else {
                Action::Fail(PipelineError::StillUnreadableAfterRepair)
            },
        ],
{
    let last = if events[3] == Event::Opened {
        Action::Succeed
    } else {
        Action::Fail(PipelineError::StillUnreadableAfterRepair)
    };
    let e1 = events.skip(1);
    let e2 = e1.skip(1);
    let e3 = e2.skip(1);
    let e4 = e3.skip(1);
    assert(run(attempt.at(Stage::Finished), e4) =~= Seq::<Action>::empty());
    assert(run(attempt.at(Stage::SecondOpen), e3) =~= seq![last]);
    assert(run(attempt.at(Stage::Replacement), e2) =~= seq![attempt.open_action(), last]);
    assert(run(attempt.at(Stage::Remux), e1) =~= seq![
        attempt.replace_action(),
        attempt.open_action(),
        last,
    ]);
    assert(run(attempt, events) =~= seq![
        attempt.tool_action(),
        attempt.replace_action(),
        attempt.open_action(),
        last,
    ]);
}

} // verus!
