//! Scoring, judgement parsing, transcript pairing, the turn operations and
//! the controller, exercised on concrete values.

use riddler::GameError;
use riddler::controller::Action;
use riddler::controller::Intent;
use riddler::controller::State;
use riddler::controller::step;
use riddler::guardian::check_guess_apply;
use riddler::guardian::judge_reply;
use riddler::guardian::request_hint_apply;
use riddler::guardian::reveal_insight_apply;
use riddler::guardian::start_session;
use riddler::scoring::compute_score;
use riddler::session::Role;
use riddler::session::Transcript;

#[test]
fn score_exact_values() {
    assert_eq!(compute_score(1, 1, 0), 25);
    assert_eq!(compute_score(2, 3, 1), 30);
    assert_eq!(compute_score(0, 5, 3), 0);
}

#[test]
fn score_bases_and_default() {
    assert_eq!(compute_score(0, 1, 0), 10);
    assert_eq!(compute_score(1, 1, 0), 25);
    assert_eq!(compute_score(2, 1, 0), 50);
    // Out-of-range difficulty falls back to the medium base.
    assert_eq!(compute_score(7, 1, 0), 25);
    // The first attempt is free.
    assert_eq!(compute_score(2, 0, 0), 50);
}

#[test]
fn score_monotone_samples() {
    for d in 0..3u64 {
        for a in 1..12u64 {
            for h in 0..6u64 {
                let here = compute_score(d, a, h);
                assert!(compute_score(d, a + 1, h) <= here);
                assert!(compute_score(d, a, h + 1) <= here);
            }
        }
    }
}

#[test]
fn judge_affirmative_forms() {
    assert!(judge_reply("yes"));
    assert!(judge_reply("Yes."));
    assert!(judge_reply(" yes. "));
    assert!(judge_reply("YES"));
    assert!(judge_reply("\tyes\n"));
}

#[test]
fn judge_negative_forms() {
    assert!(!judge_reply("no"));
    assert!(!judge_reply(""));
    assert!(!judge_reply("maybe"));
    assert!(!judge_reply("yes!"));
    assert!(!judge_reply("yes, indeed"));
}

#[test]
fn transcript_grows_in_pairs() {
    let mut t = Transcript::new();
    assert!(t.is_empty());
    t.append_exchange("first prompt", "first reply");
    t.append_exchange("second prompt", "second reply");
    t.append_exchange("third prompt", "third reply");
    assert_eq!(t.len(), 6);
    assert_eq!(t.len() % 2, 0);
    assert_eq!(t.get(0).role, Role::User);
    assert_eq!(t.get(1).role, Role::Assistant);
    assert_eq!(t.get(4).text, "third prompt");
    assert_eq!(t.get(5).text, "third reply");
    let snap = t.snapshot();
    assert_eq!(snap.len(), 6);
    assert_eq!(snap[2].text, "second prompt");
}

#[test]
fn end_to_end_turns() {
    let mut s = start_session(1, String::from("What has keys but opens no locks?"));
    assert!(s.has_riddle());
    assert_eq!(s.difficulty(), 1);
    assert_eq!(s.attempts(), 0);
    assert_eq!(s.hints_used(), 0);
    assert_eq!(s.score(), 0);
    assert_eq!(s.transcript().len(), 2);

    request_hint_apply(&mut s, Some("Think of music."));
    assert_eq!(s.hints_used(), 1);
    assert_eq!(s.transcript().len(), 4);

    let correct = check_guess_apply(&mut s, "a map", Some("no"));
    assert!(!correct);
    assert_eq!(s.attempts(), 1);
    assert_eq!(s.score(), 0);
    assert_eq!(s.transcript().len(), 6);

    let correct = check_guess_apply(&mut s, "a piano", Some("yes"));
    assert!(correct);
    assert_eq!(s.attempts(), 2);
    assert_eq!(s.score(), compute_score(1, 2, 1));
    assert_eq!(s.score(), 10);
    assert_eq!(s.transcript().len(), 8);

    reveal_insight_apply(&mut s, Some("Music unlocks what keys cannot."));
    assert_eq!(s.transcript().len(), 10);
    assert_eq!(s.attempts(), 2);
    assert_eq!(s.hints_used(), 1);
}

#[test]
fn hint_failure_still_costs() {
    let mut s = start_session(2, String::from("I speak without a mouth."));
    let turns_before = s.transcript().len();
    request_hint_apply(&mut s, None);
    assert_eq!(s.hints_used(), 1);
    assert_eq!(s.transcript().len(), turns_before);
    assert_eq!(s.score(), 0);
    assert_eq!(s.attempts(), 0);
}

#[test]
fn guess_failure_still_counts_attempt() {
    let mut s = start_session(0, String::from("What gets wetter as it dries?"));
    let turns_before = s.transcript().len();
    let correct = check_guess_apply(&mut s, "a towel", None);
    assert!(!correct);
    assert_eq!(s.attempts(), 1);
    assert_eq!(s.score(), 0);
    assert_eq!(s.transcript().len(), turns_before);
}

#[test]
fn insight_failure_changes_nothing() {
    let mut s = start_session(0, String::from("riddle"));
    let before = s.clone();
    reveal_insight_apply(&mut s, None);
    assert_eq!(s, before);
}

#[test]
fn difficulty_is_normalized() {
    let s = start_session(9, String::from("r"));
    assert_eq!(s.difficulty(), 1);
    let s = start_session(2, String::from("r"));
    assert_eq!(s.difficulty(), 2);
}

#[test]
fn controller_menu_transitions() {
    assert_eq!(
        step(State::MainMenu, Intent::MenuNewGame),
        Ok((State::DifficultySelect, Action::AskDifficulty))
    );
    assert_eq!(
        step(State::MainMenu, Intent::MenuContinue),
        Ok((State::MainMenu, Action::LoadSlot))
    );
    assert_eq!(
        step(State::MainMenu, Intent::MenuInstructions),
        Ok((State::MainMenu, Action::ShowInstructions))
    );
    assert_eq!(step(State::MainMenu, Intent::MenuQuit), Ok((State::Quit, Action::ExitGame)));
    assert_eq!(
        step(State::MainMenu, Intent::SlotLoaded(true)),
        Ok((State::ActiveRiddle, Action::ResumeGame))
    );
    assert_eq!(
        step(State::MainMenu, Intent::SlotLoaded(false)),
        Ok((State::MainMenu, Action::ReportNoSave))
    );
}

#[test]
fn controller_game_transitions() {
    assert_eq!(
        step(State::DifficultySelect, Intent::PickDifficulty(2)),
        Ok((State::ActiveRiddle, Action::BeginGame(2)))
    );
    // Out-of-range difficulty is normalized to medium.
    assert_eq!(
        step(State::DifficultySelect, Intent::PickDifficulty(42)),
        Ok((State::ActiveRiddle, Action::BeginGame(1)))
    );
    assert_eq!(
        step(State::ActiveRiddle, Intent::PlayerLine(String::from(" HINT "))),
        Ok((State::ActiveRiddle, Action::RequestHint))
    );
    assert_eq!(
        step(State::ActiveRiddle, Intent::PlayerLine(String::from("riddle"))),
        Ok((State::ActiveRiddle, Action::ShowRiddle))
    );
    assert_eq!(
        step(State::ActiveRiddle, Intent::PlayerLine(String::from("a shadow"))),
        Ok((State::ActiveRiddle, Action::SubmitGuess(String::from("a shadow"))))
    );
    assert_eq!(
        step(State::ActiveRiddle, Intent::RiddleSolved),
        Ok((State::AwaitPlayAgain, Action::AskPlayAgain))
    );
    assert_eq!(
        step(State::AwaitPlayAgain, Intent::PlayAgain),
        Ok((State::DifficultySelect, Action::AskDifficulty))
    );
    assert_eq!(step(State::AwaitPlayAgain, Intent::Stop), Ok((State::Quit, Action::ExitGame)));
}

#[test]
fn controller_rejects_invalid_intents() {
    assert_eq!(step(State::MainMenu, Intent::PlayAgain), Err(GameError::InvalidIntent));
    assert_eq!(
        step(State::DifficultySelect, Intent::MenuNewGame),
        Err(GameError::InvalidIntent)
    );
    assert_eq!(step(State::Quit, Intent::MenuQuit), Err(GameError::InvalidIntent));
    assert_eq!(
        step(State::AwaitPlayAgain, Intent::PlayerLine(String::from("x"))),
        Err(GameError::InvalidIntent)
    );
}

#[test]
fn error_messages_are_nonempty() {
    assert!(!GameError::GuardianUnavailable.message().is_empty());
    assert!(!GameError::PersistenceError.message().is_empty());
    assert!(!GameError::CorruptSave.message().is_empty());
    assert!(!GameError::InvalidIntent.message().is_empty());
}
