//! The decisions of a file's background indexer, as a state machine: it waits
//! for a pulse, checks the file and maps it again if it grew, then indexes it
//! block by block, pausing between blocks, and waits again.

use vstd::prelude::*;

verus! {

/// The most bytes one indexing step covers while it holds the file exclusively.
pub const BLOCK_BYTES: usize = 1024 * 1024;

/// How long, in milliseconds, the indexer waits for a pulse before it simply
/// waits again.
pub const IDLE_TIMEOUT_MILLIS: u64 = 5000;

/// How long, in milliseconds, the indexer pauses between two blocks.
pub const BLOCK_PAUSE_MILLIS: u64 = 1;

/// Where the indexer stands.
#[derive(Clone, Copy, Debug, PartialEq, Eq, Structural)]
pub enum IndexerState {
    /// Waiting for a pulse.
    Idle,
    /// Checking the size on disk and mapping the file again.
    Reloading,
    /// Extending the index block by block.
    Indexing,
    /// The file shrank or could not be reloaded; nothing more is done for it.
    Failed,
}

/// What happened since the indexer last decided.
#[derive(Clone, Copy, Debug, PartialEq, Eq, Structural)]
pub enum IndexerEvent {
    /// Someone asked for the file to be checked again.
    Pulse,
    /// No pulse came within the idle timeout.
    Timeout,
    /// The reload finished; `ok` is false when it failed.
    Reloaded { ok: bool },
    /// One block was indexed; `end_reached` tells whether it reached the end.
    Indexed { end_reached: bool },
    /// An indexing step failed.
    IndexFailed,
}

/// What the indexer is to do next.
#[derive(Clone, Copy, Debug, PartialEq, Eq, Structural)]
pub enum IndexerAction {
    /// Wait for a pulse, at most the idle timeout.
    WaitForPulse,
    /// Check the size on disk and map the file again if it grew.
    Reload,
    /// Index the next block.
    IndexBlock,
    /// Pause briefly, so that readers get their turn, then index the next block.
    PauseThenIndex,
    /// Stop working on this file.
    Stop,
}

/// What a state goes on doing when an event does not concern it.
pub open spec fn pending(s: IndexerState) -> IndexerAction {
    match s {
        IndexerState::Idle => IndexerAction::WaitForPulse,
        IndexerState::Reloading => IndexerAction::Reload,
        IndexerState::Indexing => IndexerAction::IndexBlock,
        IndexerState::Failed => IndexerAction::Stop,
    }
}

/// The next state and action after event `e` in state `s`.
pub open spec fn next(s: IndexerState, e: IndexerEvent) -> (IndexerState, IndexerAction) {
    match (s, e) {
        (IndexerState::Idle, IndexerEvent::Pulse) => (IndexerState::Reloading, IndexerAction::Reload),
        (IndexerState::Reloading, IndexerEvent::Reloaded { ok }) => if ok {
            (IndexerState::Indexing, IndexerAction::IndexBlock)
        } else {
            (IndexerState::Failed, IndexerAction::Stop)
        },
        (IndexerState::Indexing, IndexerEvent::Indexed { end_reached }) => if end_reached {
            (IndexerState::Idle, IndexerAction::WaitForPulse)
        } else {
            (IndexerState::Indexing, IndexerAction::PauseThenIndex)
        },
        (IndexerState::Indexing, IndexerEvent::IndexFailed) => (
            IndexerState::Failed,
            IndexerAction::Stop,
        ),
        _ => (s, pending(s)),
    }
}

impl IndexerState {
    /// The state of a new indexer, before its first pulse.
    pub fn start() -> (r: IndexerState)
        ensures
            r == IndexerState::Idle,
    {
        IndexerState::Idle
    }

    /// Decides what follows `event`. A failed indexer stays failed; pulses that
    /// arrive while it is busy are absorbed by the pass under way.
    pub fn step(self, event: IndexerEvent) -> (r: (IndexerState, IndexerAction))
        ensures
            r == next(self, event),
            self == IndexerState::Failed ==> r == (IndexerState::Failed, IndexerAction::Stop),
    {
        match (self, event) {
            (IndexerState::Idle, IndexerEvent::Pulse) => (IndexerState::Reloading, IndexerAction::Reload),
            (IndexerState::Reloading, IndexerEvent::Reloaded { ok }) => {
                if ok {
                    (IndexerState::Indexing, IndexerAction::IndexBlock)
                } else {
                    (IndexerState::Failed, IndexerAction::Stop)
                }
            },
            (IndexerState::Indexing, IndexerEvent::Indexed { end_reached }) => {
                if end_reached {
                    (IndexerState::Idle, IndexerAction::WaitForPulse)
                } else {
                    (IndexerState::Indexing, IndexerAction::PauseThenIndex)
                }
            },
            (IndexerState::Indexing, IndexerEvent::IndexFailed) => (
                IndexerState::Failed,
                IndexerAction::Stop,
            ),
            (IndexerState::Idle, _) => (IndexerState::Idle, IndexerAction::WaitForPulse),
            (IndexerState::Reloading, _) => (IndexerState::Reloading, IndexerAction::Reload),
            (IndexerState::Indexing, _) => (IndexerState::Indexing, IndexerAction::IndexBlock),
            (IndexerState::Failed, _) => (IndexerState::Failed, IndexerAction::Stop),
        }
    }
}

} // verus!
