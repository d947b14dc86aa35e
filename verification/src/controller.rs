//! The session controller: a pure state machine that sequences turns.
//!
//! The presentation layer feeds one intent at a time; the controller answers
//! with the next state and the one action the presentation layer must carry
//! out. It holds no durable state of its own: every lasting effect lives in
//! the session and its save slot.

use vstd::prelude::*;
use vstd::string::StringExecFns;

use crate::GameError;
use crate::guardian::lower_of;
use crate::guardian::trim_spec;
use crate::guardian::trim_ws;
use crate::guardian::to_lower;

verus! {

/// Where the game stands between intents.
#[derive(Clone, Copy, PartialEq, Eq, Structural, Debug)]
pub enum State {
    /// Choosing among new game, continue, instructions and quit.
    MainMenu,
    /// A new game was chosen; a difficulty tier is being picked.
    DifficultySelect,
    /// A riddle is posed; guesses, hint requests and redisplays arrive.
    ActiveRiddle,
    /// The riddle was solved and the insight shown; play again or stop.
    AwaitPlayAgain,
    /// Terminal.
    Quit,
}

/// One thing the presentation layer tells the controller.
#[derive(Clone, PartialEq, Eq, Debug)]
pub enum Intent {
    MenuNewGame,
    MenuContinue,
    MenuInstructions,
    MenuQuit,
    /// The save slot was read; `true` when it held a game in progress.
    SlotLoaded(bool),
    PickDifficulty(u64),
    /// Whatever the player typed at the riddle: a hint request, a request to
    /// see the riddle again, or a guess.
    PlayerLine(String),
    /// The guess turn ended correct and the insight was revealed.
    RiddleSolved,
    PlayAgain,
    Stop,
}

/// One thing the presentation layer must do next.
#[derive(Clone, PartialEq, Eq, Debug)]
pub enum Action {
    AskDifficulty,
    /// Run the new-game turn at the given (already normalized) difficulty.
    BeginGame(u64),
    /// Read the save slot and report back with `Intent::SlotLoaded`.
    LoadSlot,
    ShowInstructions,
    /// Resume the loaded session: redisplay its riddle.
    ResumeGame,
    /// The slot held no game in progress; say so and return to the menu.
    ReportNoSave,
    /// Run the hint turn.
    RequestHint,
    /// Redisplay the current riddle; no counter moves.
    ShowRiddle,
    /// Run the guess turn on this text.
    SubmitGuess(String),
    AskPlayAgain,
    ExitGame,
}

/// The player asks for a hint by typing exactly this word, up to case and
/// surrounding whitespace.
pub open spec fn is_hint_command(s: Seq<char>) -> bool {
    lower_of(trim_spec(s)) == "hint"@
}

/// Likewise for seeing the riddle again.
pub open spec fn is_riddle_command(s: Seq<char>) -> bool {
    lower_of(trim_spec(s)) == "riddle"@
}

/// One step of the state machine: the complete transition table. Every
/// (state, intent) pair outside the table is an invalid intent, rejected
/// without any state change.
pub fn step(state: State, intent: Intent) -> (r: Result<(State, Action), GameError>)
    ensures
        match (state, intent) {
            (State::MainMenu, Intent::MenuNewGame) => r matches Ok(p) && p == (
                State::DifficultySelect,
                Action::AskDifficulty,
            ),
            (State::MainMenu, Intent::MenuContinue) => r matches Ok(p) && p == (
                State::MainMenu,
                Action::LoadSlot,
            ),
            (State::MainMenu, Intent::MenuInstructions) => r matches Ok(p) && p == (
                State::MainMenu,
                Action::ShowInstructions,
            ),
            (State::MainMenu, Intent::MenuQuit) => r matches Ok(p) && p == (
                State::Quit,
                Action::ExitGame,
            ),
            (State::MainMenu, Intent::SlotLoaded(has_game)) => r matches Ok(p) && p == (if has_game {
                (State::ActiveRiddle, Action::ResumeGame)
            } else {
                (State::MainMenu, Action::ReportNoSave)
            }),
            (State::DifficultySelect, Intent::PickDifficulty(d)) => r matches Ok(p) && p.0
                == State::ActiveRiddle && (p.1 matches Action::BeginGame(nd) && nd
                == crate::guardian::normalize_difficulty_spec(d)),
            (State::ActiveRiddle, Intent::PlayerLine(line)) => r matches Ok(p) && p.0
                == State::ActiveRiddle && (if is_hint_command(line@) {
                p.1 == Action::RequestHint
            } else if is_riddle_command(line@) {
                p.1 == Action::ShowRiddle
            } else {
                p.1 matches Action::SubmitGuess(g) && g@ == line@
            }),
            (State::ActiveRiddle, Intent::RiddleSolved) => r matches Ok(p) && p == (
                State::AwaitPlayAgain,
                Action::AskPlayAgain,
            ),
            (State::AwaitPlayAgain, Intent::PlayAgain) => r matches Ok(p) && p == (
                State::DifficultySelect,
                Action::AskDifficulty,
            ),
            (State::AwaitPlayAgain, Intent::Stop) => r matches Ok(p) && p == (
                State::Quit,
                Action::ExitGame,
            ),
            _ => r matches Err(e) && e == GameError::InvalidIntent,
        },
{
    match (state, intent) {
        (State::MainMenu, Intent::MenuNewGame) => Ok(
            (State::DifficultySelect, Action::AskDifficulty),
        ),
        (State::MainMenu, Intent::MenuContinue) => Ok((State::MainMenu, Action::LoadSlot)),
        (State::MainMenu, Intent::MenuInstructions) => Ok(
            (State::MainMenu, Action::ShowInstructions),
        ),
        (State::MainMenu, Intent::MenuQuit) => Ok((State::Quit, Action::ExitGame)),
        (State::MainMenu, Intent::SlotLoaded(has_game)) => {
            if has_game {
                Ok((State::ActiveRiddle, Action::ResumeGame))
            } else {
                Ok((State::MainMenu, Action::ReportNoSave))
            }
        },
        (State::DifficultySelect, Intent::PickDifficulty(d)) => {
            let nd = crate::guardian::normalize_difficulty(d);
            Ok((State::ActiveRiddle, Action::BeginGame(nd)))
        },
        (State::ActiveRiddle, Intent::PlayerLine(line)) => {
            let normalized = to_lower(trim_ws(line.as_str()));
            if normalized == String::from_str("hint") {
                Ok((State::ActiveRiddle, Action::RequestHint))
            } else if normalized == String::from_str("riddle") {
                Ok((State::ActiveRiddle, Action::ShowRiddle))
            } else {
                Ok((State::ActiveRiddle, Action::SubmitGuess(line)))
            }
        },
        (State::ActiveRiddle, Intent::RiddleSolved) => Ok(
            (State::AwaitPlayAgain, Action::AskPlayAgain),
        ),
        (State::AwaitPlayAgain, Intent::PlayAgain) => Ok(
            (State::DifficultySelect, Action::AskDifficulty),
        ),
        (State::AwaitPlayAgain, Intent::Stop) => Ok((State::Quit, Action::ExitGame)),
        _ => Err(GameError::InvalidIntent),
    }
}

} // verus!
