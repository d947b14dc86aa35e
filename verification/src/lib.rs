//! Core of a turn-based riddle game: scoring, the session state with its
//! append-only transcript of guardian exchanges, a durable text encoding of a
//! session with a proved parse/render round trip, judgement parsing for
//! guesses, and the controller state machine that sequences the turns.

pub mod scoring;
pub mod codec;
pub mod controller;
pub mod guardian;
pub mod session;

use vstd::prelude::*;

verus! {

/// The error taxonomy of the core. No kind is retried internally; each is
/// reported upward for the caller to decide.
#[derive(Clone, Copy, PartialEq, Eq, Structural, Debug)]
pub enum GameError {
    /// The completion capability was unreachable or rejected the call; the
    /// turn aborted with no transcript mutation and no persistence.
    GuardianUnavailable,
    /// A save could not be committed to disk; the in-memory session still
    /// holds the mutation.
    PersistenceError,
    /// The save slot exists but does not parse; distinct from "no save".
    CorruptSave,
    /// An intent not valid for the current state.
    InvalidIntent,
}

impl GameError {
    /// A human-readable message for the presentation layer.
    pub fn message(&self) -> (m: &'static str)
        ensures
            m@.len() > 0,
    {
        let m = match self {
            GameError::GuardianUnavailable => "The Ancient Guardian cannot respond...",
            GameError::PersistenceError => "The quest could not be committed to the scrolls.",
            GameError::CorruptSave => "The saved scroll is damaged and cannot be read.",
            GameError::InvalidIntent => "That cannot be done now.",
        };
        proof {
            reveal_strlit("The Ancient Guardian cannot respond...");
            reveal_strlit("The quest could not be committed to the scrolls.");
            reveal_strlit("The saved scroll is damaged and cannot be read.");
            reveal_strlit("That cannot be done now.");
        }
        m
    }
}

} // verus!
