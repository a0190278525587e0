use livestream_archiver::archiver::LivestreamArchiver;
use livestream_archiver::error::{ArchiveError, SkipReason};
use livestream_archiver::pipeline::{has_accepted_name, triggers_processing, EventKind};
use livestream_archiver::pipeline::{FileRun, Orchestrator, PipelineAction, PipelineEvent, Stage};
use livestream_archiver::stability::Stability;
use std::path::PathBuf;

fn orchestrator() -> Orchestrator {
    Orchestrator::new(LivestreamArchiver::new(PathBuf::from("/media/archive")))
}

const SOURCE: &str = "/home/av/Sync/Livestreams/2024-12-27_18-42-36.mp4";
const NAME: &str = "2024-12-27_18-42-36.mp4";

fn run_of(path: &str, name: &str) -> FileRun {
    FileRun::received(path.to_string(), name.to_string())
}

/// Drives a run with the events of an archive in which nothing fails.
fn archive(orchestrator: &mut Orchestrator, run: &mut FileRun, existing: Vec<String>) -> Vec<PipelineAction> {
    let mut actions = Vec::new();
    actions.push(orchestrator.step(run, PipelineEvent::Begin));
    actions.push(orchestrator.step(run, PipelineEvent::Stability(Stability::Reached)));
    actions.push(orchestrator.step(run, PipelineEvent::OutputsListed(existing)));
    actions.push(orchestrator.step(run, PipelineEvent::TranscodeFinished(true)));
    actions.push(orchestrator.step(run, PipelineEvent::SidecarWritten));
    actions
}

#[test]
fn creations_and_modifications_start_a_run() {
    assert!(triggers_processing(EventKind::Created));
    assert!(triggers_processing(EventKind::Modified));
    assert!(!triggers_processing(EventKind::Other));
}

#[test]
fn accepted_names_end_in_mp4() {
    assert!(has_accepted_name("2024-12-27_18-42-36.mp4"));
    assert!(has_accepted_name("anything.mp4"));
    assert!(has_accepted_name("a.b.mp4"));
    assert!(!has_accepted_name(".mp4"));
    assert!(!has_accepted_name("mp4"));
    assert!(!has_accepted_name("a.MP4"));
    assert!(!has_accepted_name("a.mp4.tmp"));
    assert!(!has_accepted_name("a.mkv"));
    assert!(!has_accepted_name(""));
}

#[test]
fn a_run_starts_as_received() {
    let run = run_of(SOURCE, NAME);
    assert_eq!(run.stage(), Stage::Received);
    assert_eq!(run.source_path(), SOURCE);
    assert_eq!(run.file_name(), NAME);
}

#[test]
fn a_recording_is_archived_from_end_to_end() {
    let mut orchestrator = orchestrator();
    let mut run = run_of(SOURCE, NAME);

    assert_eq!(orchestrator.step(&mut run, PipelineEvent::Begin), PipelineAction::AwaitStability);
    assert_eq!(run.stage(), Stage::Stabilizing);

    let listing = orchestrator.step(&mut run, PipelineEvent::Stability(Stability::Reached));
    assert_eq!(listing, PipelineAction::ListOutputs("2024/12-December".to_string()));
    assert!(matches!(run.stage(), Stage::Stable(ts) if ts.day() == 27));

    let transcode = orchestrator.step(&mut run, PipelineEvent::OutputsListed(Vec::new()));
    assert_eq!(
        transcode,
        PipelineAction::Transcode("2024/12-December/Primary | December 27 2024.mp4".to_string())
    );
    assert!(matches!(run.stage(), Stage::Named(slot) if slot.suffix().is_none()));

    let sidecar = orchestrator.step(&mut run, PipelineEvent::TranscodeFinished(true));
    match sidecar {
        PipelineAction::WriteSidecar(target, document) => {
            assert_eq!(target, "2024/12-December/Primary | December 27 2024.nfo");
            assert!(document.contains("<title>Primary | December 27 2024</title>"));
            assert!(document.contains("<season>2024</season>"));
            assert!(document.contains("<episode>1227</episode>"));
            assert!(document.contains("<aired>2024-12-27</aired>"));
        },
        other => panic!("{:?}", other),
    }
    assert!(matches!(run.stage(), Stage::Transcoded(_)));
    assert!(!orchestrator.ledger().seen(SOURCE));

    assert_eq!(orchestrator.step(&mut run, PipelineEvent::SidecarWritten), PipelineAction::Finish);
    assert_eq!(run.stage(), Stage::Done);
    assert!(orchestrator.ledger().seen(SOURCE));
    assert_eq!(run.source_path(), SOURCE);
    assert_eq!(run.file_name(), NAME);
}

#[test]
fn the_same_source_is_archived_once() {
    let mut orchestrator = orchestrator();
    let mut first = run_of(SOURCE, NAME);
    archive(&mut orchestrator, &mut first, Vec::new());
    assert_eq!(first.stage(), Stage::Done);

    let mut second = run_of(SOURCE, NAME);
    assert_eq!(
        orchestrator.step(&mut second, PipelineEvent::Begin),
        PipelineAction::Skip(SkipReason::AlreadyProcessed)
    );
    assert_eq!(second.stage(), Stage::Skipped(SkipReason::AlreadyProcessed));
    assert_eq!(
        orchestrator.step(&mut second, PipelineEvent::Stability(Stability::Reached)),
        PipelineAction::Nothing
    );
    assert_eq!(second.stage(), Stage::Skipped(SkipReason::AlreadyProcessed));
    assert_eq!(orchestrator.ledger().len(), 1);
}

#[test]
fn another_source_of_the_same_day_becomes_secondary() {
    let mut orchestrator = orchestrator();
    let mut first = run_of(SOURCE, NAME);
    let first_actions = archive(&mut orchestrator, &mut first, Vec::new());
    let mut second = run_of("/home/av/Sync/Livestreams/2024-12-27_20-00-00.mp4", "2024-12-27_20-00-00.mp4");
    let listed = vec!["Primary | December 27 2024.mp4".to_string()];
    let second_actions = archive(&mut orchestrator, &mut second, listed);
    assert_eq!(first_actions[2], PipelineAction::Transcode("2024/12-December/Primary | December 27 2024.mp4".to_string()));
    assert_eq!(second_actions[2], PipelineAction::Transcode("2024/12-December/Secondary | December 27 2024.mp4".to_string()));
    assert_eq!(second.stage(), Stage::Done);
    assert_eq!(orchestrator.ledger().len(), 2);
}

#[test]
fn a_file_of_another_type_is_skipped() {
    let mut orchestrator = orchestrator();
    let mut run = run_of("/in/notes.txt", "notes.txt");
    assert_eq!(
        orchestrator.step(&mut run, PipelineEvent::Begin),
        PipelineAction::Skip(SkipReason::WrongExtension)
    );
    assert_eq!(run.stage(), Stage::Skipped(SkipReason::WrongExtension));
    assert_eq!(SkipReason::WrongExtension.message(), "not a recording of the accepted type");
    assert_eq!(SkipReason::AlreadyProcessed.message(), "already archived");
}

#[test]
fn the_type_is_judged_before_the_ledger() {
    let mut orchestrator = orchestrator();
    let mut first = run_of(SOURCE, NAME);
    archive(&mut orchestrator, &mut first, Vec::new());
    let mut odd = run_of(SOURCE, "2024-12-27_18-42-36.mov");
    assert_eq!(
        orchestrator.step(&mut odd, PipelineEvent::Begin),
        PipelineAction::Skip(SkipReason::WrongExtension)
    );
}

#[test]
fn a_file_that_never_rests_fails_with_a_timeout() {
    let mut orchestrator = orchestrator();
    let mut run = run_of(SOURCE, NAME);
    orchestrator.step(&mut run, PipelineEvent::Begin);
    assert_eq!(
        orchestrator.step(&mut run, PipelineEvent::Stability(Stability::TimedOut)),
        PipelineAction::Report(ArchiveError::Timeout)
    );
    assert_eq!(run.stage(), Stage::Failed(ArchiveError::Timeout));
    assert!(!orchestrator.ledger().seen(SOURCE));
}

#[test]
fn a_file_that_cannot_be_read_fails_with_an_io_error() {
    let mut orchestrator = orchestrator();
    let mut run = run_of(SOURCE, NAME);
    orchestrator.step(&mut run, PipelineEvent::Begin);
    assert_eq!(
        orchestrator.step(&mut run, PipelineEvent::Stability(Stability::Unreadable)),
        PipelineAction::Report(ArchiveError::Io)
    );
    assert_eq!(run.stage(), Stage::Failed(ArchiveError::Io));
}

#[test]
fn a_pending_judgement_moves_nothing() {
    let mut orchestrator = orchestrator();
    let mut run = run_of(SOURCE, NAME);
    orchestrator.step(&mut run, PipelineEvent::Begin);
    assert_eq!(
        orchestrator.step(&mut run, PipelineEvent::Stability(Stability::Pending)),
        PipelineAction::Nothing
    );
    assert_eq!(run.stage(), Stage::Stabilizing);
}

#[test]
fn a_name_without_a_capture_time_fails_once_the_file_is_stable() {
    let mut orchestrator = orchestrator();
    let mut run = run_of("/in/service.mp4", "service.mp4");
    assert_eq!(orchestrator.step(&mut run, PipelineEvent::Begin), PipelineAction::AwaitStability);
    assert_eq!(
        orchestrator.step(&mut run, PipelineEvent::Stability(Stability::Reached)),
        PipelineAction::Report(ArchiveError::Format)
    );
    assert_eq!(run.stage(), Stage::Failed(ArchiveError::Format));
}

#[test]
fn a_failed_encode_fails_the_run() {
    let mut orchestrator = orchestrator();
    let mut run = run_of(SOURCE, NAME);
    orchestrator.step(&mut run, PipelineEvent::Begin);
    orchestrator.step(&mut run, PipelineEvent::Stability(Stability::Reached));
    orchestrator.step(&mut run, PipelineEvent::OutputsListed(Vec::new()));
    assert_eq!(
        orchestrator.step(&mut run, PipelineEvent::TranscodeFinished(false)),
        PipelineAction::Report(ArchiveError::Transcode)
    );
    assert_eq!(run.stage(), Stage::Failed(ArchiveError::Transcode));
    assert!(!orchestrator.ledger().seen(SOURCE));
}

#[test]
fn a_sidecar_that_cannot_be_written_fails_the_run() {
    let mut orchestrator = orchestrator();
    let mut run = run_of(SOURCE, NAME);
    orchestrator.step(&mut run, PipelineEvent::Begin);
    orchestrator.step(&mut run, PipelineEvent::Stability(Stability::Reached));
    orchestrator.step(&mut run, PipelineEvent::OutputsListed(Vec::new()));
    orchestrator.step(&mut run, PipelineEvent::TranscodeFinished(true));
    assert_eq!(
        orchestrator.step(&mut run, PipelineEvent::IoFailed),
        PipelineAction::Report(ArchiveError::Io)
    );
    assert_eq!(run.stage(), Stage::Failed(ArchiveError::Io));
    assert!(!orchestrator.ledger().seen(SOURCE));
}

#[test]
fn a_directory_that_cannot_be_read_fails_the_run() {
    let mut orchestrator = orchestrator();
    let mut run = run_of(SOURCE, NAME);
    orchestrator.step(&mut run, PipelineEvent::Begin);
    orchestrator.step(&mut run, PipelineEvent::Stability(Stability::Reached));
    assert_eq!(
        orchestrator.step(&mut run, PipelineEvent::IoFailed),
        PipelineAction::Report(ArchiveError::Io)
    );
    assert_eq!(run.stage(), Stage::Failed(ArchiveError::Io));
}

#[test]
fn an_event_that_is_not_awaited_moves_nothing() {
    let mut orchestrator = orchestrator();
    let mut run = run_of(SOURCE, NAME);
    assert_eq!(
        orchestrator.step(&mut run, PipelineEvent::SidecarWritten),
        PipelineAction::Nothing
    );
    assert_eq!(run.stage(), Stage::Received);
    orchestrator.step(&mut run, PipelineEvent::Begin);
    assert_eq!(
        orchestrator.step(&mut run, PipelineEvent::TranscodeFinished(true)),
        PipelineAction::Nothing
    );
    assert_eq!(orchestrator.step(&mut run, PipelineEvent::Begin), PipelineAction::Nothing);
    assert_eq!(
        orchestrator.step(&mut run, PipelineEvent::OutputsListed(Vec::new())),
        PipelineAction::Nothing
    );
    assert_eq!(run.stage(), Stage::Stabilizing);
    assert_eq!(orchestrator.ledger().len(), 0);
}

#[test]
fn a_run_that_has_ended_stays_as_it_is() {
    let mut orchestrator = orchestrator();
    let mut done = run_of(SOURCE, NAME);
    archive(&mut orchestrator, &mut done, Vec::new());
    let mut failed = run_of("/in/2024-12-28_10-00-00.mp4", "2024-12-28_10-00-00.mp4");
    orchestrator.step(&mut failed, PipelineEvent::Begin);
    orchestrator.step(&mut failed, PipelineEvent::IoFailed);
    assert_eq!(failed.stage(), Stage::Failed(ArchiveError::Io));
    let events = || {
        [
            PipelineEvent::Begin,
            PipelineEvent::Stability(Stability::Reached),
            PipelineEvent::OutputsListed(Vec::new()),
            PipelineEvent::TranscodeFinished(true),
            PipelineEvent::SidecarWritten,
            PipelineEvent::IoFailed,
        ]
    };
    for event in events() {
        assert_eq!(orchestrator.step(&mut done, event), PipelineAction::Nothing);
        assert_eq!(done.stage(), Stage::Done);
    }
    for event in events() {
        assert_eq!(orchestrator.step(&mut failed, event), PipelineAction::Nothing);
        assert_eq!(failed.stage(), Stage::Failed(ArchiveError::Io));
    }
    assert_eq!(orchestrator.ledger().len(), 1);
}

#[test]
fn a_failed_run_leaves_the_source_to_be_taken_up_again() {
    let mut orchestrator = orchestrator();
    let mut first = run_of(SOURCE, NAME);
    orchestrator.step(&mut first, PipelineEvent::Begin);
    orchestrator.step(&mut first, PipelineEvent::Stability(Stability::TimedOut));
    let mut second = run_of(SOURCE, NAME);
    assert_eq!(orchestrator.step(&mut second, PipelineEvent::Begin), PipelineAction::AwaitStability);
}

#[test]
fn the_ledger_forgets_when_it_runs_over() {
    let mut orchestrator = orchestrator();
    let mut first = run_of(SOURCE, NAME);
    archive(&mut orchestrator, &mut first, Vec::new());
    for i in 0..1000 {
        let name = format!("2025-01-01_00-{:02}-{:02}.mp4", i / 60, i % 60);
        let mut run = run_of(&format!("/in/{}", name), &name);
        archive(&mut orchestrator, &mut run, Vec::new());
        assert_eq!(run.stage(), Stage::Done);
    }
    assert_eq!(orchestrator.ledger().len(), 0);
    let mut again = run_of(SOURCE, NAME);
    assert_eq!(orchestrator.step(&mut again, PipelineEvent::Begin), PipelineAction::AwaitStability);
}

#[test]
fn the_orchestrator_keeps_its_archiver() {
    let orchestrator = orchestrator();
    assert_eq!(orchestrator.archiver().get_output_path(), &PathBuf::from("/media/archive"));
    assert_eq!(orchestrator.ledger().len(), 0);
}

#[test]
fn the_archiver_alone_takes_a_file_through_its_stages() {
    let archiver = LivestreamArchiver::new(PathBuf::from("/media/archive"));
    let mut run = run_of(SOURCE, NAME);
    assert_eq!(archiver.process_file(&mut run, PipelineEvent::Begin), PipelineAction::AwaitStability);
    assert_eq!(
        archiver.process_file(&mut run, PipelineEvent::Stability(Stability::Reached)),
        PipelineAction::ListOutputs("2024/12-December".to_string())
    );
    let listed = vec![
        "Primary | December 27 2024.mp4".to_string(),
        "Secondary | December 27 2024.mp4".to_string(),
    ];
    assert_eq!(
        archiver.process_file(&mut run, PipelineEvent::OutputsListed(listed)),
        PipelineAction::Transcode(
            "2024/12-December/Secondary | December 27 2024 (1).mp4".to_string()
        )
    );
    let sidecar = archiver.process_file(&mut run, PipelineEvent::TranscodeFinished(true));
    assert!(matches!(
        &sidecar,
        PipelineAction::WriteSidecar(target, document)
            if target == "2024/12-December/Secondary | December 27 2024 (1).nfo"
                && document.contains("<title>Secondary | December 27 2024 (1)</title>")
                && document.contains("<tag>Secondary</tag>")
    ));
    assert_eq!(archiver.process_file(&mut run, PipelineEvent::SidecarWritten), PipelineAction::Finish);
    assert_eq!(run.stage(), Stage::Done);
}

#[test]
fn the_archiver_alone_passes_no_file_over_for_its_source() {
    let archiver = LivestreamArchiver::new(PathBuf::from("/media/archive"));
    for _ in 0..2 {
        let mut run = run_of(SOURCE, NAME);
        assert_eq!(
            archiver.process_file(&mut run, PipelineEvent::Begin),
            PipelineAction::AwaitStability
        );
    }
    let mut odd = run_of("/in/a.txt", "a.txt");
    assert_eq!(
        archiver.process_file(&mut odd, PipelineEvent::Begin),
        PipelineAction::Skip(SkipReason::WrongExtension)
    );
}
