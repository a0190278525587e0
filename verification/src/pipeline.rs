//! The run of one file through the archiver, as a state machine.
//!
//! The machine decides; its caller does the work. Each step takes the
//! stage of the run and the event that ended the last piece of work, and
//! gives the next stage and the work to do next. A run that is skipped,
//! failed or done stays so.
//!
//! A run rests only where work is awaited. The look into the ledger lies
//! within the step that begins the run, the reading of the capture time
//! within the step that finds the file stable, and the mark in the ledger
//! within the step that finds the sidecar written.

use std::path::PathBuf;
use vstd::prelude::*;
use vstd::string::StrSliceExecFns;
use crate::archiver::LivestreamArchiver;
use crate::error::{ArchiveError, SkipReason};
use crate::ledger::{marked, DedupLedger, LEDGER_CAP};
use crate::naming::{directory_for, directory_text, sidecar_path_text, video_path_text};
use crate::resolver::{resolution, OutputSlot, SlotChoice};
use crate::sidecar::{document_text, record_of, ArchiveRecord};
use crate::stability::Stability;
use crate::text::ends_with;
use crate::timestamp::{accepted_suffix, capture_of, strip_accepted_suffix};
use crate::timestamp::{CalendarFields, CaptureTimestamp};

verus! {

/// What the directory watcher reports of a path.
#[derive(Clone, Copy, Debug, PartialEq, Eq, Structural)]
pub enum EventKind {
    Created,
    Modified,
    Other,
}

/// Whether a notification of this kind starts a run: creations and
/// modifications do, anything else is ignored.
pub fn triggers_processing(kind: EventKind) -> (r: bool)
    ensures
        r == (kind != EventKind::Other),
{
    match kind {
        EventKind::Created => true,
        EventKind::Modified => true,
        EventKind::Other => false,
    }
}

/// Where the run of one file stands.
#[derive(Clone, Copy, Debug, PartialEq, Eq)]
pub enum Stage {
    /// The file was reported; nothing is decided yet.
    Received,
    /// The file is new to the ledger; its writer may still be at work.
    Stabilizing,
    /// The file is complete and its capture time is known; the names in
    /// the directory of its month are being read.
    Stable(CaptureTimestamp),
    /// The destination is resolved; the encoder is at work.
    Named(OutputSlot),
    /// The archive copy exists; the sidecar is being written.
    Transcoded(OutputSlot),
    /// Copy and sidecar exist and the source is in the ledger.
    Done,
    /// The file was passed over.
    Skipped(SkipReason),
    /// The run ended in a failure.
    Failed(ArchiveError),
}

/// A stage as contracts speak of it.
pub enum StageView {
    Received,
    Stabilizing,
    Stable(CalendarFields),
    Named(SlotChoice),
    Transcoded(SlotChoice),
    Done,
    Skipped(SkipReason),
    Failed(ArchiveError),
}

impl View for Stage {
    type V = StageView;

    open spec fn view(&self) -> StageView {
        match *self {
            Stage::Received => StageView::Received,
            Stage::Stabilizing => StageView::Stabilizing,
            Stage::Stable(ts) => StageView::Stable(ts@),
            Stage::Named(slot) => StageView::Named(slot@),
            Stage::Transcoded(slot) => StageView::Transcoded(slot@),
            Stage::Done => StageView::Done,
            Stage::Skipped(reason) => StageView::Skipped(reason),
            Stage::Failed(error) => StageView::Failed(error),
        }
    }
}

impl StageView {
    /// Whether a run at this stage has ended.
    pub open spec fn is_final(self) -> bool {
        self is Done || self is Skipped || self is Failed
    }
}

/// What ended the last piece of work of a run.
#[derive(Debug, PartialEq, Eq)]
pub enum PipelineEvent {
    /// Nothing yet: the run is to begin.
    Begin,
    /// The stability detector gave its judgement.
    Stability(Stability),
    /// The directory of the month exists and holds these file names.
    OutputsListed(Vec<String>),
    /// The encoder ended, with success or without.
    TranscodeFinished(bool),
    /// The sidecar is on disk.
    SidecarWritten,
    /// Reading, writing or creating something on disk failed.
    IoFailed,
}

/// The work that a step asks for.
#[derive(Debug, PartialEq, Eq)]
pub enum PipelineAction {
    /// Nothing: the event was not awaited, or the run has ended.
    Nothing,
    /// Report that the file is passed over.
    Skip(SkipReason),
    /// Watch the source until the stability detector has judged it.
    AwaitStability,
    /// Create this directory below the output root where it is missing,
    /// and read the file names in it.
    ListOutputs(String),
    /// Encode the source to this path below the output root.
    Transcode(String),
    /// Write this document to this path below the output root.
    WriteSidecar(String, String),
    /// Report success; the source is left as it was.
    Finish,
    /// Report the failure.
    Report(ArchiveError),
}

/// An action as contracts speak of it.
pub enum ActionView {
    Nothing,
    Skip(SkipReason),
    AwaitStability,
    ListOutputs(Seq<char>),
    Transcode(Seq<char>),
    WriteSidecar(Seq<char>, Seq<char>),
    Finish,
    Report(ArchiveError),
}

impl View for PipelineAction {
    type V = ActionView;

    open spec fn view(&self) -> ActionView {
        match *self {
            PipelineAction::Nothing => ActionView::Nothing,
            PipelineAction::Skip(reason) => ActionView::Skip(reason),
            PipelineAction::AwaitStability => ActionView::AwaitStability,
            PipelineAction::ListOutputs(directory) => ActionView::ListOutputs(directory@),
            PipelineAction::Transcode(target) => ActionView::Transcode(target@),
            PipelineAction::WriteSidecar(target, document) => ActionView::WriteSidecar(
                target@,
                document@,
            ),
            PipelineAction::Finish => ActionView::Finish,
            PipelineAction::Report(error) => ActionView::Report(error),
        }
    }
}

/// The run of one file as contracts speak of it.
pub struct RunView {
    /// The canonical path of the source.
    pub source_path: Seq<char>,
    /// The file name of the source.
    pub file_name: Seq<char>,
    pub stage: StageView,
}

/// The run of one file.
#[derive(Debug)]
pub struct FileRun {
    source_path: String,
    file_name: String,
    stage: Stage,
}

impl View for FileRun {
    type V = RunView;

    closed spec fn view(&self) -> RunView {
        RunView { source_path: self.source_path@, file_name: self.file_name@, stage: self.stage@ }
    }
}

/// Whether a file of this name is a recording of the accepted type: the
/// name ends in `.mp4` and is more than that ending.
pub open spec fn is_accepted_name(name: Seq<char>) -> bool {
    ends_with(name, accepted_suffix()) && name.len() > 4
}

/// A failure ends the run and is reported.
pub open spec fn fails_with(error: ArchiveError) -> (StageView, ActionView) {
    (StageView::Failed(error), ActionView::Report(error))
}

/// The stage after a step and the work it asks for. `ledger` holds the
/// paths that were archived before.
pub open spec fn transition(
    ledger: Set<Seq<char>>,
    run: RunView,
    event: PipelineEvent,
) -> (StageView, ActionView) {
    match run.stage {
        StageView::Received => match event {
            PipelineEvent::Begin => if !is_accepted_name(run.file_name) {
                (
                    StageView::Skipped(SkipReason::WrongExtension),
                    ActionView::Skip(SkipReason::WrongExtension),
                )
            } else if ledger.contains(run.source_path) {
                (
                    StageView::Skipped(SkipReason::AlreadyProcessed),
                    ActionView::Skip(SkipReason::AlreadyProcessed),
                )
            } else {
                (StageView::Stabilizing, ActionView::AwaitStability)
            },
            PipelineEvent::IoFailed => fails_with(ArchiveError::Io),
            _ => (run.stage, ActionView::Nothing),
        },
        StageView::Stabilizing => match event {
            PipelineEvent::Stability(Stability::Reached) => match capture_of(run.file_name) {
                Some(f) => (StageView::Stable(f), ActionView::ListOutputs(directory_text(f))),
                None => fails_with(ArchiveError::Format),
            },
            PipelineEvent::Stability(Stability::TimedOut) => fails_with(ArchiveError::Timeout),
            PipelineEvent::Stability(Stability::Unreadable) => fails_with(ArchiveError::Io),
            PipelineEvent::IoFailed => fails_with(ArchiveError::Io),
            _ => (run.stage, ActionView::Nothing),
        },
        StageView::Stable(f) => match event {
            PipelineEvent::OutputsListed(names) => {
                let slot = resolution(names@, f);
                (
                    StageView::Named(slot),
                    ActionView::Transcode(video_path_text(f, slot.category, slot.suffix)),
                )
            },
            PipelineEvent::IoFailed => fails_with(ArchiveError::Io),
            _ => (run.stage, ActionView::Nothing),
        },
        StageView::Named(slot) => match event {
            PipelineEvent::TranscodeFinished(success) => if success {
                (
                    StageView::Transcoded(slot),
                    ActionView::WriteSidecar(
                        sidecar_path_text(slot.captured, slot.category, slot.suffix),
                        document_text(record_of(slot)),
                    ),
                )
            } else {
                fails_with(ArchiveError::Transcode)
            },
            PipelineEvent::IoFailed => fails_with(ArchiveError::Io),
            _ => (run.stage, ActionView::Nothing),
        },
        StageView::Transcoded(slot) => match event {
            PipelineEvent::SidecarWritten => (StageView::Done, ActionView::Finish),
            PipelineEvent::IoFailed => fails_with(ArchiveError::Io),
            _ => (run.stage, ActionView::Nothing),
        },
        _ => (run.stage, ActionView::Nothing),
    }
}

/// The ledger after a step: the source is marked as the run becomes done,
/// and at no other step.
pub open spec fn ledger_after(
    ledger: Set<Seq<char>>,
    run: RunView,
    event: PipelineEvent,
) -> Set<Seq<char>> {
    if run.stage is Transcoded && event is SidecarWritten {
        marked(ledger, run.source_path)
    } else {
        ledger
    }
}

impl FileRun {
    /// The run of a file that was just reported, by its canonical path and
    /// its file name.
    pub fn received(source_path: String, file_name: String) -> (run: FileRun)
        ensures
            run@ == (RunView {
                source_path: source_path@,
                file_name: file_name@,
                stage: StageView::Received,
            }),
    {
        FileRun { source_path, file_name, stage: Stage::Received }
    }

    /// Where the run stands.
    pub fn stage(&self) -> (stage: Stage)
        ensures
            stage@ == self@.stage,
    {
        self.stage
    }

    /// The canonical path of the source.
    pub fn source_path(&self) -> (path: &String)
        ensures
            path@ == self@.source_path,
    {
        &self.source_path
    }

    /// The file name of the source.
    pub fn file_name(&self) -> (name: &String)
        ensures
            name@ == self@.file_name,
    {
        &self.file_name
    }
}

/// Whether a file of this name is a recording of the accepted type.
pub fn has_accepted_name(name: &str) -> (r: bool)
    ensures
        r == is_accepted_name(name@),
{
    match strip_accepted_suffix(name) {
        Some(stem) => stem.unicode_len() > 0,
        None => false,
    }
}

/// Ends the run with a failure.
fn fail(run: &mut FileRun, error: ArchiveError) -> (action: PipelineAction)
    ensures
        final(run)@.source_path == old(run)@.source_path,
        final(run)@.file_name == old(run)@.file_name,
        (final(run)@.stage, action@) == fails_with(error),
{
    run.stage = Stage::Failed(error);
    PipelineAction::Report(error)
}

impl LivestreamArchiver {
    /// Takes one step of the run of a file: moves it to its next stage and
    /// says what work is to be done next. The archiver keeps no ledger, so
    /// no file is passed over here for having been archived before.
    pub fn process_file(&self, run: &mut FileRun, event: PipelineEvent) -> (action: PipelineAction)
        ensures
            final(run)@.source_path == old(run)@.source_path,
            final(run)@.file_name == old(run)@.file_name,
            final(run)@.stage == transition(Set::empty(), old(run)@, event).0,
            action@ == transition(Set::empty(), old(run)@, event).1,
    {
        match run.stage {
            Stage::Received => match event {
                PipelineEvent::Begin => {
                    if !has_accepted_name(run.file_name.as_str()) {
                        run.stage = Stage::Skipped(SkipReason::WrongExtension);
                        PipelineAction::Skip(SkipReason::WrongExtension)
                    } else {
                        run.stage = Stage::Stabilizing;
                        PipelineAction::AwaitStability
                    }
                },
                PipelineEvent::IoFailed => fail(run, ArchiveError::Io),
                _ => PipelineAction::Nothing,
            },
            Stage::Stabilizing => match event {
                PipelineEvent::Stability(Stability::Reached) => {
                    match self.extract_date_from_filename(run.file_name.as_str()) {
                        Ok(timestamp) => {
                            run.stage = Stage::Stable(timestamp);
                            PipelineAction::ListOutputs(directory_for(&timestamp))
                        },
                        Err(error) => fail(run, error),
                    }
                },
                PipelineEvent::Stability(Stability::TimedOut) => fail(run, ArchiveError::Timeout),
                PipelineEvent::Stability(Stability::Unreadable) => fail(run, ArchiveError::Io),
                PipelineEvent::IoFailed => fail(run, ArchiveError::Io),
                _ => PipelineAction::Nothing,
            },
            Stage::Stable(timestamp) => match event {
                PipelineEvent::OutputsListed(names) => {
                    let slot = OutputSlot::resolve(timestamp, &names);
                    run.stage = Stage::Named(slot);
                    PipelineAction::Transcode(slot.video_path())
                },
                PipelineEvent::IoFailed => fail(run, ArchiveError::Io),
                _ => PipelineAction::Nothing,
            },
            Stage::Named(slot) => match event {
                PipelineEvent::TranscodeFinished(success) => {
                    if success {
                        run.stage = Stage::Transcoded(slot);
                        let record = ArchiveRecord::describe(&slot);
                        PipelineAction::WriteSidecar(slot.sidecar_path(), record.render())
                    } else {
                        fail(run, ArchiveError::Transcode)
                    }
                },
                PipelineEvent::IoFailed => fail(run, ArchiveError::Io),
                _ => PipelineAction::Nothing,
            },
            Stage::Transcoded(_) => match event {
                PipelineEvent::SidecarWritten => {
                    run.stage = Stage::Done;
                    PipelineAction::Finish
                },
                PipelineEvent::IoFailed => fail(run, ArchiveError::Io),
                _ => PipelineAction::Nothing,
            },
            _ => PipelineAction::Nothing,
        }
    }
}

/// Sequences the runs of the files through an archiver and keeps the
/// ledger of those that were archived.
pub struct Orchestrator {
    archiver: LivestreamArchiver,
    ledger: DedupLedger,
}

/// An orchestrator as contracts speak of it.
pub struct OrchestratorView {
    /// The output root of the archiver that the runs go through.
    pub output_root: PathBuf,
    /// The canonical paths of the sources that were archived.
    pub ledger: Set<Seq<char>>,
}

impl View for Orchestrator {
    type V = OrchestratorView;

    closed spec fn view(&self) -> OrchestratorView {
        OrchestratorView { output_root: self.archiver@, ledger: self.ledger@ }
    }
}

impl Orchestrator {
    /// An orchestrator with an empty ledger.
    pub fn new(archiver: LivestreamArchiver) -> (orchestrator: Orchestrator)
        ensures
            orchestrator@ == (OrchestratorView {
                output_root: archiver@,
                ledger: Set::<Seq<char>>::empty(),
            }),
    {
        Orchestrator { archiver, ledger: DedupLedger::new() }
    }

    /// The archiver that the runs go through.
    pub fn archiver(&self) -> (archiver: &LivestreamArchiver)
        ensures
            archiver@ == self@.output_root,
    {
        &self.archiver
    }

    /// The ledger of the sources that were archived.
    pub fn ledger(&self) -> (ledger: &DedupLedger)
        ensures
            ledger@ == self@.ledger,
    {
        &self.ledger
    }

    /// Takes one step of a run: passes the file over where the ledger
    /// holds its source, else moves the run to its next stage; marks the
    /// source in the ledger as the run becomes done; and says what work is
    /// to be done next.
    pub fn step(&mut self, run: &mut FileRun, event: PipelineEvent) -> (action: PipelineAction)
        ensures
            final(run)@.source_path == old(run)@.source_path,
            final(run)@.file_name == old(run)@.file_name,
            final(run)@.stage == transition(old(self)@.ledger, old(run)@, event).0,
            action@ == transition(old(self)@.ledger, old(run)@, event).1,
            final(self)@.ledger == ledger_after(old(self)@.ledger, old(run)@, event),
            final(self)@.output_root == old(self)@.output_root,
    {
        let begins = match (&run.stage, &event) {
            (Stage::Received, PipelineEvent::Begin) => true,
            _ => false,
        };
        if begins && has_accepted_name(run.file_name.as_str()) && self.ledger.seen(
            run.source_path.as_str(),
        ) {
            run.stage = Stage::Skipped(SkipReason::AlreadyProcessed);
            return PipelineAction::Skip(SkipReason::AlreadyProcessed);
        }
        let finishing = match (&run.stage, &event) {
            (Stage::Transcoded(_), PipelineEvent::SidecarWritten) => true,
            _ => false,
        };
        let action = self.archiver.process_file(run, event);
        if finishing {
            self.ledger.mark(run.source_path.clone());
        }
        action
    }
}

/// A run that is done, skipped or failed stays as it is: no event moves
/// it, asks for work or touches the ledger.
pub proof fn lemma_final_stage_absorbs(ledger: Set<Seq<char>>, run: RunView, event: PipelineEvent)
    requires
        run.stage.is_final(),
    ensures
        transition(ledger, run, event) == (run.stage, ActionView::Nothing),
        ledger_after(ledger, run, event) == ledger,
{
}

/// A run that has not ended fails whenever the work it waits for fails on
/// disk.
pub proof fn lemma_failure_from_every_stage(
    ledger: Set<Seq<char>>,
    run: RunView,
)
    requires
        !run.stage.is_final(),
    ensures
        transition(ledger, run, PipelineEvent::IoFailed) == fails_with(ArchiveError::Io),
        ledger_after(ledger, run, PipelineEvent::IoFailed) == ledger,
{
}

/// Every failure is reported: a step that ends a run in a failure asks for
/// the report of that failure.
pub proof fn lemma_failure_is_reported(
    ledger: Set<Seq<char>>,
    run: RunView,
    event: PipelineEvent,
    error: ArchiveError,
)
    requires
        !run.stage.is_final(),
        transition(ledger, run, event).0 == StageView::Failed(error),
    ensures
        transition(ledger, run, event).1 == ActionView::Report(error),
{
}

/// The ledger grows only as a run becomes done, and then by the source of
/// that run.
pub proof fn lemma_marked_only_when_done(ledger: Set<Seq<char>>, run: RunView, event: PipelineEvent)
    ensures
        ledger_after(ledger, run, event) != ledger ==> transition(ledger, run, event).0
            == StageView::Done && !run.stage.is_final(),
        transition(ledger, run, event).0 == StageView::Done && !run.stage.is_final()
            ==> ledger_after(ledger, run, event) == marked(ledger, run.source_path),
{
}

/// The same source is archived once: when a run has become done and the
/// ledger was not emptied by its mark, a run of the same source that
/// begins next is skipped as already processed, and stays skipped whatever
/// event follows.
pub proof fn lemma_repeated_source_is_skipped(
    ledger: Set<Seq<char>>,
    first: RunView,
    finishing: PipelineEvent,
    second: RunView,
    later: PipelineEvent,
)
    requires
        ledger.finite(),
        ledger.insert(first.source_path).len() <= LEDGER_CAP,
        !first.stage.is_final(),
        transition(ledger, first, finishing).0 == StageView::Done,
        second.source_path == first.source_path,
        second.stage == StageView::Received,
        is_accepted_name(second.file_name),
    ensures
        ({
            let after = ledger_after(ledger, first, finishing);
            let skipped = transition(after, second, PipelineEvent::Begin).0;
            &&& skipped == StageView::Skipped(SkipReason::AlreadyProcessed)
            &&& transition(after, RunView { stage: skipped, ..second }, later).0 == skipped
        }),
{
    assert(ledger.insert(first.source_path).contains(first.source_path));
}

} // verus!
