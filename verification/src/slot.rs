//! The process-wide single-slot current-game state: written by the launcher
//! just before it spawns a game, read by the identification broker to scope
//! association handles. Callers guard a slot with their own lock and keep
//! critical sections to the plain read and write below.
use crate::record::{is_sentinel, GameRecord};
use vstd::prelude::*;

verus! {

/// One mutable cell holding the most recently launched game record.
pub struct CurrentGameSlot {
    current: GameRecord,
}

impl CurrentGameSlot {
    /// The record the slot holds.
    pub closed spec fn record(self) -> GameRecord {
        self.current
    }

    /// A fresh slot holding the sentinel record.
    pub fn new() -> (r: Self)
        ensures
            is_sentinel(r.record()),
    {
        CurrentGameSlot { current: GameRecord::default() }
    }

    /// Publishes a newly launched game.
    pub fn set(&mut self, game: GameRecord)
        ensures
            final (self).record() == game,
    {
        self.current = game;
    }

    /// Reads the currently published game.
    pub fn get(&self) -> (r: GameRecord)
        ensures
            r == self.record(),
    {
        self.current.clone()
    }
}

} // verus!
