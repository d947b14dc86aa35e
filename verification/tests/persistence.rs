//! The save-format round trip and its failure modes, on concrete documents.

use riddler::GameError;
use riddler::codec::load_slot;
use riddler::codec::parse_session;
use riddler::codec::render_session;
use riddler::guardian::check_guess_apply;
use riddler::guardian::request_hint_apply;
use riddler::guardian::start_session;

#[test]
fn round_trip_fresh_session() {
    let s = start_session(0, String::from("What runs but never walks?"));
    let doc = render_session(&s);
    let back = parse_session(doc.as_str()).unwrap();
    assert_eq!(back, s);
}

#[test]
fn round_trip_played_session() {
    let mut s = start_session(2, String::from("Riddle with\nnewlines, \"quotes\" and ünïcode ✓"));
    request_hint_apply(&mut s, Some("a hint\nwith a second line"));
    let _ = check_guess_apply(&mut s, "guess with spaces", Some("  YES.  "));
    let doc = render_session(&s);
    let back = parse_session(doc.as_str()).unwrap();
    assert_eq!(back, s);
    assert_eq!(back.score(), s.score());
    assert_eq!(back.transcript().len(), 6);
}

#[test]
fn round_trip_through_load_slot() {
    let mut s = start_session(1, String::from("r"));
    request_hint_apply(&mut s, None);
    let doc = render_session(&s);
    let back = load_slot(Some(doc.as_str())).unwrap();
    assert_eq!(back, s);
    assert_eq!(back.hints_used(), 1);
}

#[test]
fn load_missing_slot_gives_default() {
    let s = load_slot(None).unwrap();
    assert_eq!(s.difficulty(), 1);
    assert!(!s.has_riddle());
    assert_eq!(s.attempts(), 0);
    assert_eq!(s.hints_used(), 0);
    assert_eq!(s.score(), 0);
    assert!(s.transcript().is_empty());
}

#[test]
fn empty_document_is_corrupt() {
    assert_eq!(parse_session(""), Err(GameError::CorruptSave));
}

#[test]
fn garbage_document_is_corrupt() {
    assert_eq!(parse_session("not a save file at all"), Err(GameError::CorruptSave));
    assert_eq!(load_slot(Some("{}")), Err(GameError::CorruptSave));
}

#[test]
fn truncated_document_is_corrupt() {
    let s = start_session(1, String::from("some riddle"));
    let doc = render_session(&s);
    let mut shorter: String = doc.chars().collect::<Vec<char>>()[..doc.chars().count() - 1]
        .iter()
        .collect();
    assert_eq!(parse_session(shorter.as_str()), Err(GameError::CorruptSave));
    shorter.truncate(25);
    assert_eq!(parse_session(shorter.as_str()), Err(GameError::CorruptSave));
}

#[test]
fn trailing_characters_are_corrupt() {
    let s = start_session(1, String::from("some riddle"));
    let mut doc = render_session(&s);
    doc.push(' ');
    assert_eq!(parse_session(doc.as_str()), Err(GameError::CorruptSave));
}

#[test]
fn out_of_range_difficulty_is_corrupt() {
    let s = start_session(1, String::from("r"));
    let doc = render_session(&s);
    // The first twenty characters are the difficulty field; force it to 5.
    let mut chars: Vec<char> = doc.chars().collect();
    chars[19] = '5';
    let tampered: String = chars.iter().collect();
    assert_eq!(parse_session(tampered.as_str()), Err(GameError::CorruptSave));
}

#[test]
fn non_digit_in_number_field_is_corrupt() {
    let s = start_session(1, String::from("r"));
    let doc = render_session(&s);
    let mut chars: Vec<char> = doc.chars().collect();
    chars[21] = 'x';
    let tampered: String = chars.iter().collect();
    assert_eq!(parse_session(tampered.as_str()), Err(GameError::CorruptSave));
}

#[test]
fn render_is_not_the_input_text() {
    // The document carries fixed-width fields, never the bare riddle alone.
    let s = start_session(1, String::from("abc"));
    let doc = render_session(&s);
    // Difficulty 1 then attempts 0, each as twenty digits.
    let expected_prefix = format!("{}1{}", "0".repeat(19), "0".repeat(20));
    assert!(doc.starts_with(&expected_prefix));
    assert!(doc.contains("abc"));
}
