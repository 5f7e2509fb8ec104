use onboard::extraction::{summarize_outcomes, EntryOutcome, ExtractionReport};
use onboard::launch::{launch_step, LaunchAction, LaunchError, LaunchEvent, LaunchState};
use onboard::provision::{
    provision_step, BuildOutcome, ProvisionAction, ProvisionError, ProvisionEvent, ProvisionState,
};
use onboard::record::{keep_found, GameRecord};
use onboard::slot::CurrentGameSlot;

fn record(id: &str, name: &str, hash: &str) -> GameRecord {
    GameRecord { id: id.to_string(), name: name.to_string(), hash: hash.to_string() }
}

fn empty_report() -> ExtractionReport {
    ExtractionReport { attempted: 0, succeeded: 0, failures: Vec::new() }
}

#[test]
fn probe_hit_short_circuits_without_build() {
    let g = record("g1", "Game One", "aGFzaA==");
    let (s, a) = provision_step(
        ProvisionState::ResolvingMeta,
        ProvisionEvent::MetaFetched { record: g },
    );
    assert!(matches!(a, ProvisionAction::ProbeInstalled { .. }));
    let (s, a) = provision_step(s, ProvisionEvent::ProbeResult { installed: true });
    assert!(matches!(s, ProvisionState::Complete));
    assert!(matches!(a, ProvisionAction::Finish));
    // A second run of the pipeline behaves the same: the probe hit keeps
    // the external build from ever being requested.
}

#[test]
fn probe_miss_runs_the_full_pipeline_once() {
    let g = record("g1", "Game One", "aGFzaA==");
    let mut builds: usize = 0;
    let (s, _) = provision_step(
        ProvisionState::ResolvingMeta,
        ProvisionEvent::MetaFetched { record: g },
    );
    let (s, a) = provision_step(s, ProvisionEvent::ProbeResult { installed: false });
    assert!(matches!(a, ProvisionAction::DownloadArchive { .. }));
    let (s, a) = provision_step(s, ProvisionEvent::Downloaded { archive: vec![1, 2, 3] });
    match &a {
        ProvisionAction::UnpackArchive { archive, .. } => assert_eq!(archive, &vec![1, 2, 3]),
        _ => panic!("expected an unpack request"),
    }
    let (s, a) = provision_step(s, ProvisionEvent::Unpacked { report: empty_report() });
    assert!(matches!(a, ProvisionAction::PersistMetadata { .. }));
    let (s, a) = provision_step(s, ProvisionEvent::PersistResult { ok: true });
    if matches!(a, ProvisionAction::BuildSandbox { .. }) {
        builds += 1;
    }
    let (s, a) = provision_step(s, ProvisionEvent::BuildResult { outcome: BuildOutcome::Succeeded });
    assert!(matches!(s, ProvisionState::Complete));
    assert!(matches!(a, ProvisionAction::Finish));
    assert_eq!(builds, 1);
}

#[test]
fn partial_extraction_still_persists_metadata() {
    // Two entries succeed, one hits a permission failure: the unpack is
    // reported, not aborted, and the pipeline still persists the record.
    let outcomes = vec![
        EntryOutcome { name: "publish/a".to_string(), ok: true, error: String::new() },
        EntryOutcome { name: "publish/b".to_string(), ok: false, error: "permission".to_string() },
        EntryOutcome { name: "publish/c".to_string(), ok: true, error: String::new() },
    ];
    let report = summarize_outcomes(&outcomes);
    assert_eq!(report.succeeded, 2);
    let g = record("g1", "Game One", "aGFzaA==");
    let (_, a) = provision_step(
        ProvisionState::Unpacking { record: g },
        ProvisionEvent::Unpacked { report },
    );
    assert!(matches!(a, ProvisionAction::PersistMetadata { .. }));
}

#[test]
fn metadata_fallback_then_unavailable() {
    let (s, a) = provision_step(ProvisionState::ResolvingMeta, ProvisionEvent::MetaFetchFailed);
    assert!(matches!(a, ProvisionAction::ReadLocalMetadata));
    let (s, a) = provision_step(s, ProvisionEvent::LocalMetaMissing);
    assert!(matches!(s, ProvisionState::Failed { error: ProvisionError::MetadataUnavailable }));
    assert!(matches!(a, ProvisionAction::Fail { error: ProvisionError::MetadataUnavailable }));
}

#[test]
fn metadata_fallback_uses_the_local_record() {
    let (s, _) = provision_step(ProvisionState::ResolvingMeta, ProvisionEvent::MetaFetchFailed);
    let g = record("g1", "Game One", "aGFzaA==");
    let (s, a) = provision_step(s, ProvisionEvent::LocalMeta { record: g });
    assert!(matches!(s, ProvisionState::Probing { .. }));
    assert!(matches!(a, ProvisionAction::ProbeInstalled { .. }));
}

#[test]
fn download_error_is_fatal() {
    let g = record("g1", "Game One", "aGFzaA==");
    let (_, a) = provision_step(
        ProvisionState::Downloading { record: g },
        ProvisionEvent::DownloadError,
    );
    assert!(matches!(a, ProvisionAction::Fail { error: ProvisionError::DownloadFailed }));
}

#[test]
fn build_error_is_fatal() {
    let g = record("g1", "Game One", "aGFzaA==");
    let (_, a) = provision_step(
        ProvisionState::Building { record: g },
        ProvisionEvent::BuildResult { outcome: BuildOutcome::Failed },
    );
    assert!(matches!(a, ProvisionAction::Fail { error: ProvisionError::BuildFailed }));
}

#[test]
fn missing_executable_is_its_own_error() {
    let g = record("g1", "Game One", "aGFzaA==");
    let (s, a) = provision_step(
        ProvisionState::Building { record: g },
        ProvisionEvent::BuildResult { outcome: BuildOutcome::ExecutableMissing },
    );
    assert!(matches!(s, ProvisionState::Failed { error: ProvisionError::NoExecutableFound }));
    assert!(matches!(a, ProvisionAction::Fail { error: ProvisionError::NoExecutableFound }));
}

#[test]
fn launch_publishes_before_spawn_even_if_flush_fails() {
    let mut slot = CurrentGameSlot::new();
    let (s, a) = launch_step(
        LaunchState::EnsuringReady,
        LaunchEvent::ProvisionFinished { ok: true },
        &mut slot,
    );
    assert!(matches!(a, LaunchAction::ReadMetadata));
    let g = record("g1", "Game One", "aGFzaA==");
    let (s, a) = launch_step(s, LaunchEvent::MetaRead { record: g }, &mut slot);
    assert!(matches!(a, LaunchAction::FlushSaves { .. }));
    // The slot is untouched until the spawn is requested.
    assert_eq!(slot.get().id, "");
    // The flush fails; the launch proceeds regardless.
    let (s, a) = launch_step(s, LaunchEvent::FlushResult { ok: false }, &mut slot);
    match &a {
        LaunchAction::SpawnGame { record } => assert_eq!(record.id, "g1"),
        _ => panic!("expected a spawn request"),
    }
    // The registry reflects the game as soon as the spawn is requested,
    // before the process exits.
    assert_eq!(slot.get().id, "g1");
    let (s, a) = launch_step(s, LaunchEvent::ProcessExited { ok: true }, &mut slot);
    assert!(matches!(a, LaunchAction::Settle));
    let (s, a) = launch_step(s, LaunchEvent::SettleElapsed, &mut slot);
    assert!(matches!(s, LaunchState::Finished));
    assert!(matches!(a, LaunchAction::Finish));
}

#[test]
fn launch_failures_abort() {
    let mut slot = CurrentGameSlot::new();
    let (_, a) = launch_step(
        LaunchState::EnsuringReady,
        LaunchEvent::ProvisionFinished { ok: false },
        &mut slot,
    );
    assert!(matches!(a, LaunchAction::Fail { error: LaunchError::NotReady }));
    let (_, a) = launch_step(LaunchState::ReadingMeta, LaunchEvent::MetaMissing, &mut slot);
    assert!(matches!(a, LaunchAction::Fail { error: LaunchError::MetadataMissing }));
    let g = record("g1", "Game One", "aGFzaA==");
    let (_, a) = launch_step(
        LaunchState::Spawned { record: g },
        LaunchEvent::ProcessExited { ok: false },
        &mut slot,
    );
    assert!(matches!(a, LaunchAction::Fail { error: LaunchError::SpawnFailed }));
}

#[test]
fn keep_found_drops_misses() {
    let results = vec![
        Some(record("g1", "A", "h")),
        None,
        Some(record("g2", "B", "h")),
    ];
    let kept = keep_found(results);
    assert_eq!(kept.len(), 2);
    assert_eq!(kept[0].id, "g1");
    assert_eq!(kept[1].id, "g2");
}
