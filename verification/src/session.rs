//! The session model: turns, the append-only transcript, and the mutable
//! state of one riddle game.
//!
//! The transcript only ever grows by matched user/assistant pairs, so a
//! well-formed session always has an even transcript, alternating roles.

use vstd::prelude::*;
use vstd::string::StrSliceExecFns;
use vstd::string::StringExecFns;

verus! {

/// Who spoke a turn: the player (as relayed by the core) or the guardian.
#[derive(Clone, Copy, PartialEq, Eq, Structural, Debug)]
pub enum Role {
    User,
    Assistant,
}

/// One utterance in the dialogue. Immutable once appended.
#[derive(Clone, PartialEq, Eq, Debug)]
pub struct Turn {
    pub role: Role,
    pub text: String,
}

/// Mathematical model of a turn.
pub ghost struct TurnV {
    pub role: Role,
    pub text: Seq<char>,
}

impl View for Turn {
    type V = TurnV;

    open spec fn view(&self) -> TurnV {
        TurnV { role: self.role, text: self.text@ }
    }
}

impl Turn {
    /// Builds a turn, learning along the way that its text fits the
    /// machine-limit bound that well-formedness asks for.
    pub fn new(role: Role, text: String) -> (t: Turn)
        ensures
            t@ == (TurnV { role, text: text@ }),
            t@.text.len() <= u64::MAX,
    {
        // Learns that the character count fits the machine-limit bound.
        let _n: usize = text.as_str().unicode_len();
        Turn { role, text }
    }
}

/// The transcript is well-formed when its turns come in matched pairs:
/// a user prompt at every even index, the assistant's reply right after it.
pub open spec fn paired(ts: Seq<TurnV>) -> bool {
    &&& ts.len() % 2 == 0
    &&& forall|i: int|
        0 <= i < ts.len() ==> ts[i].role == (if i % 2 == 0 {
            Role::User
        } else {
            Role::Assistant
        })
}

/// Appending one matched pair to a paired transcript leaves it paired.
pub proof fn lemma_paired_append(ts: Seq<TurnV>, prompt: Seq<char>, reply: Seq<char>)
    requires
        paired(ts),
    ensures
        paired(
            ts + seq![
                TurnV { role: Role::User, text: prompt },
                TurnV { role: Role::Assistant, text: reply },
            ],
        ),
{
    let ts2 = ts + seq![
        TurnV { role: Role::User, text: prompt },
        TurnV { role: Role::Assistant, text: reply },
    ];
    assert forall|i: int| 0 <= i < ts2.len() implies ts2[i].role == (if i % 2 == 0 {
        Role::User
    } else {
        Role::Assistant
    }) by {
        if i < ts.len() {
            assert(ts2[i] == ts[i]);
        }
    }
}

/// The ordered log of all turns exchanged with the guardian in one session.
/// Append-only: nothing removes or reorders turns.
#[derive(Clone, PartialEq, Eq, Debug)]
pub struct Transcript {
    turns: Vec<Turn>,
}

impl View for Transcript {
    type V = Seq<TurnV>;

    closed spec fn view(&self) -> Seq<TurnV> {
        self.turns@.map_values(|t: Turn| t@)
    }
}

impl Transcript {
    pub fn new() -> (t: Transcript)
        ensures
            t@ == Seq::<TurnV>::empty(),
    {
        let t = Transcript { turns: Vec::new() };
        proof {
            assert(t@ =~= Seq::<TurnV>::empty());
        }
        t
    }

    pub fn len(&self) -> (n: usize)
        ensures
            n == self@.len(),
    {
        self.turns.len()
    }

    pub fn is_empty(&self) -> (b: bool)
        ensures
            b == (self@.len() == 0),
    {
        self.turns.len() == 0
    }

    /// Read access to one turn.
    pub fn get(&self, i: usize) -> (t: &Turn)
        requires
            i < self@.len(),
        ensures
            t@ == self@[i as int],
    {
        &self.turns[i]
    }

    /// Appends one matched user/assistant pair. This is the only way the
    /// transcript grows, so a paired transcript stays paired.
    pub fn append_exchange(&mut self, prompt: &str, reply: &str)
        ensures
            final(self)@ == old(self)@ + seq![
                TurnV { role: Role::User, text: prompt@ },
                TurnV { role: Role::Assistant, text: reply@ },
            ],
            old(self)@.len() <= u64::MAX - 2 && paired(old(self)@) ==> paired(final(self)@),
            final(self)@.len() == old(self)@.len() + 2,
            prompt@.len() <= u64::MAX && reply@.len() <= u64::MAX,
    {
        let p = Turn::new(Role::User, String::from_str(prompt));
        let r = Turn::new(Role::Assistant, String::from_str(reply));
        self.turns.push(p);
        self.turns.push(r);
        proof {
            assert(final(self)@ =~= old(self)@ + seq![
                TurnV { role: Role::User, text: prompt@ },
                TurnV { role: Role::Assistant, text: reply@ },
            ]);
            if old(self)@.len() <= u64::MAX - 2 && paired(old(self)@) {
                lemma_paired_append(old(self)@, prompt@, reply@);
            }
        }
    }

    /// A read-only copy of the whole transcript, in order: exactly what is
    /// handed to the completion capability on every turn.
    pub fn snapshot(&self) -> (v: Vec<Turn>)
        ensures
            v@.len() == self@.len(),
            forall|i: int| 0 <= i < v@.len() ==> v@[i]@ == self@[i],
    {
        let mut v: Vec<Turn> = Vec::new();
        let n = self.turns.len();
        let mut i: usize = 0;
        while i < n
            invariant
                n == self.turns.len(),
                i <= n,
                v@.len() == i,
                forall|j: int| 0 <= j < i ==> v@[j]@ == self@[j],
            decreases n - i,
        {
            let t = &self.turns[i];
            v.push(Turn { role: t.role, text: t.text.clone() });
            i = i + 1;
        }
        v
    }

    /// Builds a transcript directly from a list of turns; only the save-file
    /// parser uses this, after validating the pairing itself.
    pub(crate) fn from_turns(turns: Vec<Turn>) -> (t: Transcript)
        ensures
            t@ == turns@.map_values(|u: Turn| u@),
    {
        Transcript { turns }
    }
}

/// Mathematical model of a session.
pub ghost struct SessionV {
    pub difficulty: u64,
    pub riddle: Seq<char>,
    pub attempts: u64,
    pub hints_used: u64,
    pub score: u64,
    pub transcript: Seq<TurnV>,
    pub started: Seq<char>,
}

impl SessionV {
    /// A session is well-formed when its difficulty is one of the three
    /// tiers, its transcript comes in matched pairs, and every piece of text
    /// is short enough that its length fits the save format's number fields.
    pub open spec fn wf(self) -> bool {
        &&& self.difficulty < 3
        &&& paired(self.transcript)
        &&& self.transcript.len() <= u64::MAX - 2
        &&& self.riddle.len() <= u64::MAX
        &&& self.started.len() <= u64::MAX
        &&& forall|i: int|
            0 <= i < self.transcript.len() ==> (#[trigger] self.transcript[i]).text.len()
                <= u64::MAX
    }
}

/// The complete state of one riddle game in progress.
#[derive(Clone, PartialEq, Eq, Debug)]
pub struct Session {
    pub(crate) difficulty: u64,
    pub(crate) current_riddle: String,
    pub(crate) attempts: u64,
    pub(crate) hints_used: u64,
    pub(crate) score: u64,
    pub(crate) transcript: Transcript,
    pub(crate) started_at: String,
}

impl View for Session {
    type V = SessionV;

    closed spec fn view(&self) -> SessionV {
        SessionV {
            difficulty: self.difficulty,
            riddle: self.current_riddle@,
            attempts: self.attempts,
            hints_used: self.hints_used,
            score: self.score,
            transcript: self.transcript@,
            started: self.started_at@,
        }
    }
}

impl Session {
    /// A default, not-yet-started session: medium difficulty, no riddle,
    /// all counters zero.
    pub fn empty(started_at: String) -> (s: Session)
        ensures
            s@ == (SessionV {
                difficulty: 1,
                riddle: Seq::<char>::empty(),
                attempts: 0,
                hints_used: 0,
                score: 0,
                transcript: Seq::<TurnV>::empty(),
                started: started_at@,
            }),
            s@.wf(),
    {
        // Learns that the character count fits the machine-limit bound.
        let _n: usize = started_at.as_str().unicode_len();
        let s = Session {
            difficulty: 1,
            current_riddle: String::new(),
            attempts: 0,
            hints_used: 0,
            score: 0,
            transcript: Transcript::new(),
            started_at,
        };
        proof {
            assert(s@.riddle =~= Seq::<char>::empty());
        }
        s
    }

    pub fn difficulty(&self) -> (d: u64)
        ensures
            d == self@.difficulty,
    {
        self.difficulty
    }

    pub fn current_riddle(&self) -> (r: &String)
        ensures
            r@ == self@.riddle,
    {
        &self.current_riddle
    }

    pub fn attempts(&self) -> (n: u64)
        ensures
            n == self@.attempts,
    {
        self.attempts
    }

    pub fn hints_used(&self) -> (n: u64)
        ensures
            n == self@.hints_used,
    {
        self.hints_used
    }

    pub fn score(&self) -> (n: u64)
        ensures
            n == self@.score,
    {
        self.score
    }

    pub fn started_at(&self) -> (r: &String)
        ensures
            r@ == self@.started,
    {
        &self.started_at
    }

    pub fn transcript(&self) -> (t: &Transcript)
        ensures
            t@ == self@.transcript,
    {
        &self.transcript
    }

    /// Whether a saved session holds a game in progress: a riddle exists.
    pub fn has_riddle(&self) -> (b: bool)
        ensures
            b == (self@.riddle.len() != 0),
    {
        !self.current_riddle.as_str().is_empty()
    }

    /// Records that a hint was granted. Deliberately callable before the
    /// guardian has answered: a failed hint call still costs the player, and
    /// everything else — the transcript above all — is left untouched.
    pub fn note_hint(&mut self)
        requires
            old(self)@.hints_used < u64::MAX,
        ensures
            final(self)@ == (SessionV {
                hints_used: (old(self)@.hints_used + 1) as u64,
                ..old(self)@
            }),
            old(self)@.wf() ==> final(self)@.wf(),
    {
        self.hints_used = self.hints_used + 1;
    }

    /// Records that a guess was submitted; nothing else changes.
    pub fn note_attempt(&mut self)
        requires
            old(self)@.attempts < u64::MAX,
        ensures
            final(self)@ == (SessionV {
                attempts: (old(self)@.attempts + 1) as u64,
                ..old(self)@
            }),
            old(self)@.wf() ==> final(self)@.wf(),
    {
        self.attempts = self.attempts + 1;
    }

    /// Adds points won to the cumulative score; the score never decreases.
    pub fn award(&mut self, points: u64)
        requires
            old(self)@.score + points <= u64::MAX,
        ensures
            final(self)@ == (SessionV {
                score: (old(self)@.score + points) as u64,
                ..old(self)@
            }),
            old(self)@.wf() ==> final(self)@.wf(),
    {
        self.score = self.score + points;
    }

    /// Appends one completed exchange with the guardian to the transcript.
    pub fn record_exchange(&mut self, prompt: &str, reply: &str)
        requires
            old(self)@.transcript.len() <= u64::MAX - 2,
        ensures
            final(self)@ == (SessionV {
                transcript: old(self)@.transcript + seq![
                    TurnV { role: Role::User, text: prompt@ },
                    TurnV { role: Role::Assistant, text: reply@ },
                ],
                ..old(self)@
            }),
            old(self)@.wf() && old(self)@.transcript.len() <= u64::MAX - 4 ==> final(self)@.wf(),
    {
        self.transcript.append_exchange(prompt, reply);
        proof {
            let ts2 = final(self)@.transcript;
            if old(self)@.wf() && old(self)@.transcript.len() <= u64::MAX - 4 {
                assert forall|i: int|
                    0 <= i < ts2.len() implies (#[trigger] ts2[i]).text.len() <= u64::MAX by {
                    if i < old(self)@.transcript.len() {
                        assert(ts2[i] == old(self)@.transcript[i]);
                    }
                }
            }
        }
    }

    /// Assembles a session from parsed parts; only the save-file parser uses
    /// this, after validating well-formedness itself.
    pub(crate) fn assemble(
        difficulty: u64,
        current_riddle: String,
        attempts: u64,
        hints_used: u64,
        score: u64,
        transcript: Transcript,
        started_at: String,
    ) -> (s: Session)
        ensures
            s@ == (SessionV {
                difficulty,
                riddle: current_riddle@,
                attempts,
                hints_used,
                score,
                transcript: transcript@,
                started: started_at@,
            }),
    {
        Session { difficulty, current_riddle, attempts, hints_used, score, transcript, started_at }
    }
}

} // verus!
