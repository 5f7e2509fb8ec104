//! The launch sequence as a state machine: provision first, re-read the
//! authoritative persisted record, best-effort flush pending save state,
//! publish the record to the current-game slot, and only then spawn the
//! sandboxed process and wait for it. The slot is written in the same step
//! that requests the spawn, so identification requests during play scope
//! correctly from the first poll.
use crate::record::GameRecord;
use crate::slot::CurrentGameSlot;
use vstd::prelude::*;

verus! {

/// The failures that abort a launch; there is no degraded launch mode.
#[derive(Debug)]
pub enum LaunchError {
    /// Provisioning failed, so there is nothing runnable.
    NotReady,
    /// The persisted record is missing after provisioning claimed success.
    MetadataMissing,
    /// The sandboxed process could not be spawned or waited on.
    SpawnFailed,
}

/// Where the launch sequence stands.
pub enum LaunchState {
    /// Running the provisioning pipeline.
    EnsuringReady,
    /// Re-reading the persisted record for the authoritative identity.
    ReadingMeta,
    /// Best-effort flushing pending save state for the record.
    Flushing { record: GameRecord },
    /// The record is published and the process is running.
    Spawned { record: GameRecord },
    /// The process exited; waiting out the settle delay.
    Settling,
    /// The launch is over.
    Finished,
    /// The launch was aborted.
    Aborted { error: LaunchError },
}

/// What the outside world reported back for the pending step.
pub enum LaunchEvent {
    ProvisionFinished { ok: bool },
    MetaRead { record: GameRecord },
    MetaMissing,
    /// The flush outcome; a failure is logged by the caller and never
    /// blocks the launch.
    FlushResult { ok: bool },
    ProcessExited { ok: bool },
    SettleElapsed,
}

/// The next piece of outside work the launcher asks for.
pub enum LaunchAction {
    /// Run the provisioning pipeline for the game.
    Provision,
    /// Read the persisted record.
    ReadMetadata,
    /// Flush pending save state, best-effort.
    FlushSaves { record: GameRecord },
    /// Spawn the sandbox run command for the record and wait for exit. The
    /// record is already published to the current-game slot.
    SpawnGame { record: GameRecord },
    /// Wait the brief settle delay before returning to the caller.
    Settle,
    /// The launch finished.
    Finish,
    /// The launch failed; report the error.
    Fail { error: LaunchError },
    /// The event did not belong to the current state; nothing to do.
    Ignore,
}

/// The transition relation, with the record to publish (if any) made
/// explicit: a record is published exactly when a spawn is requested.
pub open spec fn spec_launch_step(s: LaunchState, ev: LaunchEvent) -> (
    LaunchState,
    LaunchAction,
    Option<GameRecord>,
) {
    match (s, ev) {
        (LaunchState::EnsuringReady, LaunchEvent::ProvisionFinished { ok }) => if ok {
            (LaunchState::ReadingMeta, LaunchAction::ReadMetadata, None)
        } else {
            (
                LaunchState::Aborted { error: LaunchError::NotReady },
                LaunchAction::Fail { error: LaunchError::NotReady },
                None,
            )
        },
        (LaunchState::ReadingMeta, LaunchEvent::MetaRead { record }) => (
            LaunchState::Flushing { record },
            LaunchAction::FlushSaves { record },
            None,
        ),
        (LaunchState::ReadingMeta, LaunchEvent::MetaMissing) => (
            LaunchState::Aborted { error: LaunchError::MetadataMissing },
            LaunchAction::Fail { error: LaunchError::MetadataMissing },
            None,
        ),
        (LaunchState::Flushing { record }, LaunchEvent::FlushResult { ok: _ }) => (
            LaunchState::Spawned { record },
            LaunchAction::SpawnGame { record },
            Some(record),
        ),
        (LaunchState::Spawned { record: _ }, LaunchEvent::ProcessExited { ok }) => if ok {
            (LaunchState::Settling, LaunchAction::Settle, None)
        } else {
            (
                LaunchState::Aborted { error: LaunchError::SpawnFailed },
                LaunchAction::Fail { error: LaunchError::SpawnFailed },
                None,
            )
        },
        (LaunchState::Settling, LaunchEvent::SettleElapsed) => (
            LaunchState::Finished,
            LaunchAction::Finish,
            None,
        ),
        (st, _) => (st, LaunchAction::Ignore, None),
    }
}

/// Performs one transition, publishing to the current-game slot exactly
/// where the transition relation says so.
pub fn launch_step(s: LaunchState, ev: LaunchEvent, slot: &mut CurrentGameSlot) -> (r: (
    LaunchState,
    LaunchAction,
))
    ensures
        r.0 == spec_launch_step(s, ev).0,
        r.1 == spec_launch_step(s, ev).1,
        spec_launch_step(s, ev).2 matches Some(g) ==> final (slot).record() == g,
        spec_launch_step(s, ev).2 is None ==> *final (slot) == *old(slot),
{
    match (s, ev) {
        (LaunchState::EnsuringReady, LaunchEvent::ProvisionFinished { ok }) => {
            if ok {
                (LaunchState::ReadingMeta, LaunchAction::ReadMetadata)
            } else {
                (
                    LaunchState::Aborted { error: LaunchError::NotReady },
                    LaunchAction::Fail { error: LaunchError::NotReady },
                )
            }
        },
        (LaunchState::ReadingMeta, LaunchEvent::MetaRead { record }) => {
            let f = record.clone();
            (LaunchState::Flushing { record }, LaunchAction::FlushSaves { record: f })
        },
        (LaunchState::ReadingMeta, LaunchEvent::MetaMissing) => (
            LaunchState::Aborted { error: LaunchError::MetadataMissing },
            LaunchAction::Fail { error: LaunchError::MetadataMissing },
        ),
        (LaunchState::Flushing { record }, LaunchEvent::FlushResult { ok: _ }) => {
            slot.set(record.clone());
            let sp = record.clone();
            (LaunchState::Spawned { record }, LaunchAction::SpawnGame { record: sp })
        },
        (LaunchState::Spawned { record: _ }, LaunchEvent::ProcessExited { ok }) => {
            if ok {
                (LaunchState::Settling, LaunchAction::Settle)
            } else {
                (
                    LaunchState::Aborted { error: LaunchError::SpawnFailed },
                    LaunchAction::Fail { error: LaunchError::SpawnFailed },
                )
            }
        },
        (LaunchState::Settling, LaunchEvent::SettleElapsed) => (
            LaunchState::Finished,
            LaunchAction::Finish,
        ),
        (st, _) => (st, LaunchAction::Ignore),
    }
}

/// The current game is published before the spawn: whenever a transition
/// requests a spawn, it also publishes exactly the spawned record, and no
/// other transition publishes anything.
pub proof fn lemma_publish_exactly_at_spawn(s: LaunchState, ev: LaunchEvent)
    ensures
        spec_launch_step(s, ev).1 matches LaunchAction::SpawnGame { record } ==> spec_launch_step(
            s,
            ev,
        ).2 == Some(record),
        !(spec_launch_step(s, ev).1 is SpawnGame) ==> spec_launch_step(s, ev).2 is None,
{
}

/// A flush failure never blocks the launch: both flush outcomes lead to
/// the same published record and the same spawn request.
pub proof fn lemma_flush_failure_harmless(record: GameRecord)
    ensures
        spec_launch_step(
            LaunchState::Flushing { record },
            LaunchEvent::FlushResult { ok: false },
        ) == spec_launch_step(
            LaunchState::Flushing { record },
            LaunchEvent::FlushResult { ok: true },
        ),
{
}

} // verus!
