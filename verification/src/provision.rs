//! The provisioning pipeline as a state machine: resolve metadata (catalog
//! first, local cache as fallback), probe whether the sandbox identity is
//! already installed, and only on a miss download, unpack, persist and
//! build. The caller performs each requested action — the outside work —
//! and feeds the outcome back as the next event.
use crate::extraction::ExtractionReport;
use crate::record::GameRecord;
use vstd::prelude::*;

verus! {

/// The structural failures provisioning surfaces to its caller.
#[derive(Debug)]
pub enum ProvisionError {
    /// Neither the catalog nor the local cache yielded a record.
    MetadataUnavailable,
    /// The archive could not be fetched, or its materialization failed.
    DownloadFailed,
    /// No entry-point executable could be located in the artifact tree.
    NoExecutableFound,
    /// The external sandbox build failed.
    BuildFailed,
}

/// How the external build attempt ended.
pub enum BuildOutcome {
    /// The sandbox was built and installed.
    Succeeded,
    /// No entry-point executable exists in the unpacked artifact tree.
    ExecutableMissing,
    /// The build or install itself failed.
    Failed,
}

/// Where the pipeline stands.
pub enum ProvisionState {
    /// Asking the catalog for the game's record.
    ResolvingMeta,
    /// Catalog unreachable; reading the last persisted local record.
    ReadingLocalMeta,
    /// Asking whether a sandbox under the record's identity is installed.
    Probing { record: GameRecord },
    /// Fetching the packaged archive.
    Downloading { record: GameRecord },
    /// Unpacking the archive into the game's directory.
    Unpacking { record: GameRecord },
    /// Persisting the resolved record as the local cache copy.
    Persisting { record: GameRecord },
    /// Running the external build/install tool.
    Building { record: GameRecord },
    /// Provisioning finished successfully.
    Complete,
    /// Provisioning failed.
    Failed { error: ProvisionError },
}

/// What the outside world reported back for the pending action.
pub enum ProvisionEvent {
    MetaFetched { record: GameRecord },
    MetaFetchFailed,
    LocalMeta { record: GameRecord },
    LocalMetaMissing,
    ProbeResult { installed: bool },
    Downloaded { archive: Vec<u8> },
    DownloadError,
    Unpacked { report: ExtractionReport },
    PersistResult { ok: bool },
    BuildResult { outcome: BuildOutcome },
}

/// The next piece of outside work the pipeline asks for.
pub enum ProvisionAction {
    /// Fetch the record from the catalog.
    FetchMetadata,
    /// Read the last persisted local record.
    ReadLocalMetadata,
    /// Probe whether the record's sandbox identity is installed.
    ProbeInstalled { record: GameRecord },
    /// Download the packaged archive.
    DownloadArchive { record: GameRecord },
    /// Unpack the archive into the game's directory, best-effort per entry.
    UnpackArchive { record: GameRecord, archive: Vec<u8> },
    /// Overwrite the persisted local record.
    PersistMetadata { record: GameRecord },
    /// Run the external build/install tool for the record.
    BuildSandbox { record: GameRecord },
    /// Provisioning is done; nothing is left to do.
    Finish,
    /// Provisioning failed; report the error.
    Fail { error: ProvisionError },
    /// The event did not belong to the current state; nothing to do.
    Ignore,
}

/// The transition relation: what one event does to the pipeline.
pub open spec fn spec_provision_step(s: ProvisionState, ev: ProvisionEvent) -> (
    ProvisionState,
    ProvisionAction,
) {
    match (s, ev) {
        (ProvisionState::ResolvingMeta, ProvisionEvent::MetaFetched { record }) => (
            ProvisionState::Probing { record },
            ProvisionAction::ProbeInstalled { record },
        ),
        (ProvisionState::ResolvingMeta, ProvisionEvent::MetaFetchFailed) => (
            ProvisionState::ReadingLocalMeta,
            ProvisionAction::ReadLocalMetadata,
        ),
        (ProvisionState::ReadingLocalMeta, ProvisionEvent::LocalMeta { record }) => (
            ProvisionState::Probing { record },
            ProvisionAction::ProbeInstalled { record },
        ),
        (ProvisionState::ReadingLocalMeta, ProvisionEvent::LocalMetaMissing) => (
            ProvisionState::Failed { error: ProvisionError::MetadataUnavailable },
            ProvisionAction::Fail { error: ProvisionError::MetadataUnavailable },
        ),
        (ProvisionState::Probing { record }, ProvisionEvent::ProbeResult { installed }) => if installed {
            (ProvisionState::Complete, ProvisionAction::Finish)
        } else {
            (
                ProvisionState::Downloading { record },
                ProvisionAction::DownloadArchive { record },
            )
        },
        (ProvisionState::Downloading { record }, ProvisionEvent::Downloaded { archive }) => (
            ProvisionState::Unpacking { record },
            ProvisionAction::UnpackArchive { record, archive },
        ),
        (ProvisionState::Downloading { record }, ProvisionEvent::DownloadError) => (
            ProvisionState::Failed { error: ProvisionError::DownloadFailed },
            ProvisionAction::Fail { error: ProvisionError::DownloadFailed },
        ),
        (ProvisionState::Unpacking { record }, ProvisionEvent::Unpacked { report }) => (
            ProvisionState::Persisting { record },
            ProvisionAction::PersistMetadata { record },
        ),
        (ProvisionState::Persisting { record }, ProvisionEvent::PersistResult { ok }) => if ok {
            (ProvisionState::Building { record }, ProvisionAction::BuildSandbox { record })
        } else {
            (
                ProvisionState::Failed { error: ProvisionError::DownloadFailed },
                ProvisionAction::Fail { error: ProvisionError::DownloadFailed },
            )
        },
        (ProvisionState::Building { record }, ProvisionEvent::BuildResult { outcome }) => match outcome {
            BuildOutcome::Succeeded => (ProvisionState::Complete, ProvisionAction::Finish),
            BuildOutcome::ExecutableMissing => (
                ProvisionState::Failed { error: ProvisionError::NoExecutableFound },
                ProvisionAction::Fail { error: ProvisionError::NoExecutableFound },
            ),
            BuildOutcome::Failed => (
                ProvisionState::Failed { error: ProvisionError::BuildFailed },
                ProvisionAction::Fail { error: ProvisionError::BuildFailed },
            ),
        },
        (st, _) => (st, ProvisionAction::Ignore),
    }
}

/// Performs one transition of the pipeline.
pub fn provision_step(s: ProvisionState, ev: ProvisionEvent) -> (r: (
    ProvisionState,
    ProvisionAction,
))
    ensures
        r == spec_provision_step(s, ev),
{
    match (s, ev) {
        (ProvisionState::ResolvingMeta, ProvisionEvent::MetaFetched { record }) => {
            let probe = record.clone();
            (ProvisionState::Probing { record }, ProvisionAction::ProbeInstalled { record: probe })
        },
        (ProvisionState::ResolvingMeta, ProvisionEvent::MetaFetchFailed) => (
            ProvisionState::ReadingLocalMeta,
            ProvisionAction::ReadLocalMetadata,
        ),
        (ProvisionState::ReadingLocalMeta, ProvisionEvent::LocalMeta { record }) => {
            let probe = record.clone();
            (ProvisionState::Probing { record }, ProvisionAction::ProbeInstalled { record: probe })
        },
        (ProvisionState::ReadingLocalMeta, ProvisionEvent::LocalMetaMissing) => (
            ProvisionState::Failed { error: ProvisionError::MetadataUnavailable },
            ProvisionAction::Fail { error: ProvisionError::MetadataUnavailable },
        ),
        (ProvisionState::Probing { record }, ProvisionEvent::ProbeResult { installed }) => {
            if installed {
                (ProvisionState::Complete, ProvisionAction::Finish)
            } else {
                let dl = record.clone();
                (
                    ProvisionState::Downloading { record },
                    ProvisionAction::DownloadArchive { record: dl },
                )
            }
        },
        (ProvisionState::Downloading { record }, ProvisionEvent::Downloaded { archive }) => {
            let up = record.clone();
            (
                ProvisionState::Unpacking { record },
                ProvisionAction::UnpackArchive { record: up, archive },
            )
        },
        (ProvisionState::Downloading { record: _ }, ProvisionEvent::DownloadError) => (
            ProvisionState::Failed { error: ProvisionError::DownloadFailed },
            ProvisionAction::Fail { error: ProvisionError::DownloadFailed },
        ),
        (ProvisionState::Unpacking { record }, ProvisionEvent::Unpacked { report: _ }) => {
            let p = record.clone();
            (ProvisionState::Persisting { record }, ProvisionAction::PersistMetadata { record: p })
        },
        (ProvisionState::Persisting { record }, ProvisionEvent::PersistResult { ok }) => {
            if ok {
                let b = record.clone();
                (ProvisionState::Building { record }, ProvisionAction::BuildSandbox { record: b })
            } else {
                (
                    ProvisionState::Failed { error: ProvisionError::DownloadFailed },
                    ProvisionAction::Fail { error: ProvisionError::DownloadFailed },
                )
            }
        },
        (ProvisionState::Building { record: _ }, ProvisionEvent::BuildResult { outcome }) => {
            match outcome {
                BuildOutcome::Succeeded => (ProvisionState::Complete, ProvisionAction::Finish),
                BuildOutcome::ExecutableMissing => (
                    ProvisionState::Failed { error: ProvisionError::NoExecutableFound },
                    ProvisionAction::Fail { error: ProvisionError::NoExecutableFound },
                ),
                BuildOutcome::Failed => (
                    ProvisionState::Failed { error: ProvisionError::BuildFailed },
                    ProvisionAction::Fail { error: ProvisionError::BuildFailed },
                ),
            }
        },
        (st, _) => (st, ProvisionAction::Ignore),
    }
}

/// How many build invocations a run of the pipeline issues.
pub open spec fn build_count(s: ProvisionState, evs: Seq<ProvisionEvent>) -> nat
    decreases evs.len(),
{
    if evs.len() == 0 {
        0
    } else {
        let step = spec_provision_step(s, evs[0]);
        (if step.1 is BuildSandbox {
            1nat
        } else {
            0nat
        }) + build_count(step.0, evs.drop_first())
    }
}

/// The state a run ends in.
pub open spec fn run_state(s: ProvisionState, evs: Seq<ProvisionEvent>) -> ProvisionState
    decreases evs.len(),
{
    if evs.len() == 0 {
        s
    } else {
        run_state(spec_provision_step(s, evs[0]).0, evs.drop_first())
    }
}

/// States from which no build invocation can ever be issued again.
pub open spec fn past_build(s: ProvisionState) -> bool {
    s is Building || s is Complete || s is Failed
}

/// Once the pipeline is past its build decision, no run issues a build.
pub proof fn lemma_no_build_past(s: ProvisionState, evs: Seq<ProvisionEvent>)
    requires
        past_build(s),
    ensures
        build_count(s, evs) == 0,
    decreases evs.len(),
{
    if evs.len() > 0 {
        let step = spec_provision_step(s, evs[0]);
        lemma_no_build_past(step.0, evs.drop_first());
    }
}

/// The external build is invoked at most once per run, from any state.
pub proof fn lemma_build_at_most_once(s: ProvisionState, evs: Seq<ProvisionEvent>)
    ensures
        build_count(s, evs) <= 1,
    decreases evs.len(),
{
    if evs.len() > 0 {
        let step = spec_provision_step(s, evs[0]);
        if step.1 is BuildSandbox {
            lemma_no_build_past(step.0, evs.drop_first());
        } else {
            lemma_build_at_most_once(step.0, evs.drop_first());
        }
    }
}

/// Idempotent provisioning: when the installed-probe reports the sandbox
/// identity already present, the run short-circuits — it completes at once
/// and never issues a build, however it continues.
pub proof fn lemma_probe_hit_short_circuits(
    record: GameRecord,
    evs: Seq<ProvisionEvent>,
)
    requires
        evs.len() >= 1,
        evs[0] == (ProvisionEvent::ProbeResult { installed: true }),
    ensures
        spec_provision_step(ProvisionState::Probing { record }, evs[0]).0 is Complete,
        spec_provision_step(ProvisionState::Probing { record }, evs[0]).1 is Finish,
        build_count(ProvisionState::Probing { record }, evs) == 0,
{
    lemma_no_build_past(ProvisionState::Complete, evs.drop_first());
}

} // verus!
