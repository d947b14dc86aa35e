//! Guardian interaction: the prompts sent to the completion capability, the
//! parsing of its judgement of a guess, and the session mutation each turn
//! operation applies once the capability has (or has not) answered.
//!
//! The capability itself is an external collaborator: the caller invokes it
//! with a prompt and the transcript snapshot, and hands the outcome to the
//! `..._apply` functions here, which perform every decision and mutation.

use vstd::prelude::*;
use vstd::string::StrSliceExecFns;
use vstd::string::StringExecFns;

use crate::scoring::compute_score;
use crate::scoring::score_spec;
use crate::session::Role;
use crate::session::Session;
use crate::session::SessionV;
use crate::session::Transcript;
use crate::session::TurnV;

verus! {

/// The characters carrying the Unicode `White_Space` property, which is what
/// `str::trim` strips at either end.
pub open spec fn is_space_char(c: char) -> bool {
    ||| c == '\u{0009}'
    ||| c == '\u{000A}'
    ||| c == '\u{000B}'
    ||| c == '\u{000C}'
    ||| c == '\u{000D}'
    ||| c == ' '
    ||| c == '\u{0085}'
    ||| c == '\u{00A0}'
    ||| c == '\u{1680}'
    ||| c == '\u{2000}'
    ||| c == '\u{2001}'
    ||| c == '\u{2002}'
    ||| c == '\u{2003}'
    ||| c == '\u{2004}'
    ||| c == '\u{2005}'
    ||| c == '\u{2006}'
    ||| c == '\u{2007}'
    ||| c == '\u{2008}'
    ||| c == '\u{2009}'
    ||| c == '\u{200A}'
    ||| c == '\u{2028}'
    ||| c == '\u{2029}'
    ||| c == '\u{202F}'
    ||| c == '\u{205F}'
    ||| c == '\u{3000}'
}

pub open spec fn trim_start_spec(s: Seq<char>) -> Seq<char>
    decreases s.len(),
{
    if s.len() > 0 && is_space_char(s[0]) {
        trim_start_spec(s.subrange(1, s.len() as int))
    } else {
        s
    }
}

pub open spec fn trim_end_spec(s: Seq<char>) -> Seq<char>
    decreases s.len(),
{
    if s.len() > 0 && is_space_char(s[s.len() - 1]) {
        trim_end_spec(s.subrange(0, s.len() - 1))
    } else {
        s
    }
}

/// What `str::trim` returns: the text with whitespace stripped at both ends.
pub open spec fn trim_spec(s: Seq<char>) -> Seq<char> {
    trim_end_spec(trim_start_spec(s))
}

/// What `str::to_lowercase` returns for the given characters. Full Unicode
/// lowercasing is far too large to state, but it is a function of the
/// characters alone, so it gets a name.
pub uninterp spec fn lower_of(s: Seq<char>) -> Seq<char>;

/// Relies on `str::trim`: returns the same text with the characters carrying
/// the Unicode `White_Space` property removed from both ends.
#[verifier::external_body]
pub(crate) fn trim_ws(s: &str) -> (r: &str)
    ensures
        r@ == trim_spec(s@),
{
    s.trim()
}

/// Relies on `str::to_lowercase`: the Unicode lowercase mapping of the text,
/// a function of the characters alone; an empty string stays empty.
#[verifier::external_body]
pub(crate) fn to_lower(s: &str) -> (r: String)
    ensures
        r@ == lower_of(s@),
        s@.len() == 0 ==> r@.len() == 0,
{
    s.to_lowercase()
}

/// Relies on chrono's `Local::now` and `DateTime::to_rfc3339`: the current
/// moment as an RFC 3339 date-time string. The value depends on the clock,
/// so nothing is promised beyond its being a non-empty string whose length
/// fits the save format's number fields.
#[verifier::external_body]
pub(crate) fn now_rfc3339() -> (r: String)
    ensures
        1 <= r@.len() <= u64::MAX,
{
    chrono::Local::now().to_rfc3339()
}

/// A guardian judgement counts as "correct" exactly when, trimmed and
/// lowercased, it reads "yes" or "yes."; anything else — "no", empty,
/// verbose output — is an incorrect guess, never an error.
pub open spec fn is_affirmative(s: Seq<char>) -> bool {
    lower_of(trim_spec(s)) == "yes"@ || lower_of(trim_spec(s)) == "yes."@
}

/// Parses the guardian's judgement of a guess.
pub fn judge_reply(judgement: &str) -> (correct: bool)
    ensures
        correct == is_affirmative(judgement@),
{
    let trimmed = trim_ws(judgement);
    let lowered = to_lower(trimmed);
    let yes = String::from_str("yes");
    let yes_dot = String::from_str("yes.");
    lowered == yes || lowered == yes_dot
}

/// Out-of-range difficulties fall back to the medium tier.
pub open spec fn normalize_difficulty_spec(difficulty: u64) -> u64 {
    if difficulty < 3 {
        difficulty
    } else {
        1
    }
}

pub fn normalize_difficulty(difficulty: u64) -> (d: u64)
    ensures
        d == normalize_difficulty_spec(difficulty),
        d < 3,
{
    if difficulty < 3 {
        difficulty
    } else {
        1
    }
}

/// The fixed riddle-request instruction for each difficulty tier.
pub open spec fn new_game_prompt_spec(difficulty: u64) -> Seq<char> {
    if difficulty == 0 {
        "Please create a simple and straightforward riddle suitable for beginners."@
    } else if difficulty == 2 {
        "Craft an extremely challenging riddle that will truly test the user's intellect."@
    } else {
        "Create a moderately challenging riddle that requires some thought."@
    }
}

pub fn new_game_prompt(difficulty: u64) -> (p: &'static str)
    ensures
        p@ == new_game_prompt_spec(normalize_difficulty_spec(difficulty)),
{
    match difficulty {
        0 => "Please create a simple and straightforward riddle suitable for beginners.",
        2 => "Craft an extremely challenging riddle that will truly test the user's intellect.",
        _ => "Create a moderately challenging riddle that requires some thought.",
    }
}

/// The unlock phrase the guardian's persona requires before giving a hint.
pub open spec fn hint_prompt_spec() -> Seq<char> {
    "XYZ"@
}

pub fn hint_prompt() -> (p: &'static str)
    ensures
        p@ == hint_prompt_spec(),
{
    "XYZ"
}

/// The fixed request for the final insight after a correct guess.
pub open spec fn insight_prompt_spec() -> Seq<char> {
    "Please provide the user with their deeply deserved insight"@
}

pub fn insight_prompt() -> (p: &'static str)
    ensures
        p@ == insight_prompt_spec(),
{
    "Please provide the user with their deeply deserved insight"
}

/// The prompt asking the guardian to judge the literal guess text.
pub open spec fn guess_prompt_spec(guess: Seq<char>) -> Seq<char> {
    "Here is the user's answer: "@ + guess
        + "\nPlease answer exactly \"yes\" or \"no\" if this answer is satisfactory, nothing more."@
}

pub fn guess_prompt(guess: &str) -> (p: String)
    ensures
        p@ == guess_prompt_spec(guess@),
{
    let mut p = String::from_str("Here is the user's answer: ");
    p.append(guess);
    p.append(
        "\nPlease answer exactly \"yes\" or \"no\" if this answer is satisfactory, nothing more.",
    );
    p
}

/// Starts a fresh session: the normalized difficulty is fixed for the life of
/// the session, the riddle the guardian produced is set once and for all, all
/// counters are zero, and the transcript holds exactly the opening exchange.
/// The start timestamp comes from the clock, so it is not pinned.
pub fn start_session(difficulty: u64, riddle: String) -> (s: Session)
    ensures
        s@.difficulty == normalize_difficulty_spec(difficulty),
        s@.riddle == riddle@,
        s@.attempts == 0,
        s@.hints_used == 0,
        s@.score == 0,
        s@.transcript == seq![
            TurnV {
                role: Role::User,
                text: new_game_prompt_spec(normalize_difficulty_spec(difficulty)),
            },
            TurnV { role: Role::Assistant, text: riddle@ },
        ],
        s@.wf(),
{
    let d = normalize_difficulty(difficulty);
    let prompt = new_game_prompt(d);
    let started = now_rfc3339();
    // Learns that the riddle's character count fits the machine-limit bound.
    let _n: usize = riddle.as_str().unicode_len();
    let mut t = Transcript::new();
    proof {
        assert(crate::session::paired(t@));
    }
    t.append_exchange(prompt, riddle.as_str());
    let s = Session::assemble(d, riddle, 0, 0, 0, t, started);
    proof {
        assert(s@.transcript =~= seq![
            TurnV {
                role: Role::User,
                text: new_game_prompt_spec(normalize_difficulty_spec(difficulty)),
            },
            TurnV { role: Role::Assistant, text: riddle@ },
        ]);
        assert forall|i: int|
            0 <= i < s@.transcript.len() implies (#[trigger] s@.transcript[i]).text.len()
            <= u64::MAX by {}
    }
    s
}

/// Applies the outcome of one hint request. The hint counts as used whether
/// or not the guardian answered — a failed hint still costs the player — but
/// on failure the transcript is left exactly as it was.
pub fn request_hint_apply(s: &mut Session, reply: Option<&str>)
    requires
        old(s)@.wf(),
        old(s)@.hints_used < u64::MAX,
        old(s)@.transcript.len() <= u64::MAX - 4,
    ensures
        final(s)@.wf(),
        match reply {
            Some(r) => final(s)@ == (SessionV {
                hints_used: (old(s)@.hints_used + 1) as u64,
                transcript: old(s)@.transcript + seq![
                    TurnV { role: Role::User, text: hint_prompt_spec() },
                    TurnV { role: Role::Assistant, text: r@ },
                ],
                ..old(s)@
            }),
            None => final(s)@ == (SessionV {
                hints_used: (old(s)@.hints_used + 1) as u64,
                ..old(s)@
            }),
        },
{
    s.note_hint();
    match reply {
        Some(r) => {
            s.record_exchange(hint_prompt(), r);
        },
        None => {},
    }
}

/// Applies the outcome of one guess. The attempt counts whether or not the
/// guardian answered. Given a judgement, the exchange is appended and, on an
/// affirmative judgement, the score grows by exactly the scoring function's
/// output for the updated counters; on failure nothing but the attempt
/// counter changes, and the guess is reported as not correct.
pub fn check_guess_apply(s: &mut Session, guess: &str, judgement: Option<&str>) -> (correct: bool)
    requires
        old(s)@.wf(),
        old(s)@.attempts < u64::MAX,
        old(s)@.score + 50 <= u64::MAX,
        old(s)@.transcript.len() <= u64::MAX - 4,
    ensures
        final(s)@.wf(),
        match judgement {
            Some(j) => {
                &&& correct == is_affirmative(j@)
                &&& final(s)@ == (SessionV {
                    attempts: (old(s)@.attempts + 1) as u64,
                    score: (old(s)@.score + if correct {
                        score_spec(
                            old(s)@.difficulty,
                            (old(s)@.attempts + 1) as u64,
                            old(s)@.hints_used,
                        )
                    } else {
                        0
                    }) as u64,
                    transcript: old(s)@.transcript + seq![
                        TurnV { role: Role::User, text: guess_prompt_spec(guess@) },
                        TurnV { role: Role::Assistant, text: j@ },
                    ],
                    ..old(s)@
                })
            },
            None => !correct && final(s)@ == (SessionV {
                attempts: (old(s)@.attempts + 1) as u64,
                ..old(s)@
            }),
        },
{
    s.note_attempt();
    match judgement {
        None => false,
        Some(j) => {
            let prompt = guess_prompt(guess);
            let correct = judge_reply(j);
            s.record_exchange(prompt.as_str(), j);
            if correct {
                let points = compute_score(s.difficulty(), s.attempts(), s.hints_used());
                s.award(points);
            }
            correct
        },
    }
}

/// Applies the outcome of the final insight request, made only after a
/// correct guess: on success the exchange joins the transcript; no counter
/// moves either way.
pub fn reveal_insight_apply(s: &mut Session, reply: Option<&str>)
    requires
        old(s)@.wf(),
        old(s)@.transcript.len() <= u64::MAX - 4,
    ensures
        final(s)@.wf(),
        match reply {
            Some(r) => final(s)@ == (SessionV {
                transcript: old(s)@.transcript + seq![
                    TurnV { role: Role::User, text: insight_prompt_spec() },
                    TurnV { role: Role::Assistant, text: r@ },
                ],
                ..old(s)@
            }),
            None => final(s)@ == old(s)@,
        },
{
    match reply {
        Some(r) => {
            s.record_exchange(insight_prompt(), r);
        },
        None => {},
    }
}

} // verus!
