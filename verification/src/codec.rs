//! The durable text encoding of a session.
//!
//! The format is fixed-width and length-prefixed: every number is exactly
//! twenty decimal digits, and every piece of text is its character count (as
//! such a number) followed by the characters themselves. A session is the
//! difficulty, attempts, hints and score, then the riddle and start
//! timestamp, then the number of transcript pairs followed by each pair's
//! user and assistant text. Parsing accepts exactly the well-formed renderings
//! and nothing else; the round trip is proved below.

use vstd::prelude::*;
use vstd::string::StrSliceExecFns;
use vstd::string::StringExecFns;

use crate::GameError;
use crate::session::Role;
use crate::session::Session;
use crate::session::SessionV;
use crate::session::Transcript;
use crate::session::Turn;
use crate::session::TurnV;

verus! {

/// Width of every number field: enough decimal digits for any `u64`.
pub const NUM_WIDTH: usize = 20;

pub open spec fn pow10(k: nat) -> int
    decreases k,
{
    if k == 0 {
        1
    } else {
        10 * pow10((k - 1) as nat)
    }
}

pub open spec fn digit_char(d: int) -> char {
    if d == 0 {
        '0'
    } else if d == 1 {
        '1'
    } else if d == 2 {
        '2'
    } else if d == 3 {
        '3'
    } else if d == 4 {
        '4'
    } else if d == 5 {
        '5'
    } else if d == 6 {
        '6'
    } else if d == 7 {
        '7'
    } else if d == 8 {
        '8'
    } else {
        '9'
    }
}

pub open spec fn is_digit_char(c: char) -> bool {
    c == '0' || c == '1' || c == '2' || c == '3' || c == '4' || c == '5' || c == '6' || c == '7'
        || c == '8' || c == '9'
}

pub open spec fn digit_val(c: char) -> int {
    if c == '0' {
        0
    } else if c == '1' {
        1
    } else if c == '2' {
        2
    } else if c == '3' {
        3
    } else if c == '4' {
        4
    } else if c == '5' {
        5
    } else if c == '6' {
        6
    } else if c == '7' {
        7
    } else if c == '8' {
        8
    } else {
        9
    }
}

/// The last `k` decimal digits of `n`, most significant first.
pub open spec fn spec_digits(n: int, k: nat) -> Seq<char>
    decreases k,
{
    if k == 0 {
        Seq::empty()
    } else {
        spec_digits(n / 10, (k - 1) as nat) + seq![digit_char(n % 10)]
    }
}

/// One number field: a `u64` as exactly twenty digits.
pub open spec fn spec_num(n: u64) -> Seq<char> {
    spec_digits(n as int, NUM_WIDTH as nat)
}

/// One text field: the character count, then the characters.
pub open spec fn spec_text(t: Seq<char>) -> Seq<char> {
    spec_num(t.len() as u64) + t
}

/// Reads `k` digit characters at `i`, most significant first.
pub open spec fn spec_parse_digits(s: Seq<char>, i: int, k: nat) -> Option<int>
    decreases k,
{
    if i < 0 || i + k > s.len() {
        None
    } else if k == 0 {
        Some(0)
    } else {
        match spec_parse_digits(s, i, (k - 1) as nat) {
            None => None,
            Some(v) => {
                if is_digit_char(s[i + k - 1]) {
                    Some(v * 10 + digit_val(s[i + k - 1]))
                } else {
                    None
                }
            },
        }
    }
}

/// Reads one number field at `i`: the value and the position after it.
pub open spec fn spec_parse_num(s: Seq<char>, i: int) -> Option<(u64, int)> {
    match spec_parse_digits(s, i, NUM_WIDTH as nat) {
        None => None,
        Some(v) => {
            if v <= u64::MAX {
                Some(((v as u64), i + NUM_WIDTH))
            } else {
                None
            }
        },
    }
}

/// Reads one text field at `i`: the text and the position after it.
pub open spec fn spec_parse_text(s: Seq<char>, i: int) -> Option<(Seq<char>, int)> {
    match spec_parse_num(s, i) {
        None => None,
        Some((len, j)) => {
            if j + len <= s.len() {
                Some((s.subrange(j, j + len), j + len))
            } else {
                None
            }
        },
    }
}

pub proof fn lemma_pow10_pos(k: nat)
    ensures
        pow10(k) >= 1,
    decreases k,
{
    if k > 0 {
        lemma_pow10_pos((k - 1) as nat);
    }
}

pub proof fn lemma_pow10_mono(a: nat, b: nat)
    requires
        a <= b,
    ensures
        pow10(a) <= pow10(b),
    decreases b,
{
    if a < b {
        lemma_pow10_mono(a, (b - 1) as nat);
        lemma_pow10_pos((b - 1) as nat);
    }
}

pub proof fn lemma_pow10_num_width()
    ensures
        pow10(NUM_WIDTH as nat) == 0x56bc75e2d63100000,
{
    reveal_with_fuel(pow10, 21);
}

pub proof fn lemma_spec_digits_len(n: int, k: nat)
    ensures
        spec_digits(n, k).len() == k,
    decreases k,
{
    if k > 0 {
        lemma_spec_digits_len(n / 10, (k - 1) as nat);
    }
}

/// A successful digit parse yields a value below `pow10` of the width.
pub proof fn lemma_parse_digits_bound(s: Seq<char>, i: int, k: nat)
    requires
        spec_parse_digits(s, i, k) is Some,
    ensures
        0 <= spec_parse_digits(s, i, k)->Some_0 < pow10(k),
    decreases k,
{
    if k > 0 {
        lemma_parse_digits_bound(s, i, (k - 1) as nat);
    }
}

/// Parsing the rendered digits of `n` gives back exactly `n`.
pub proof fn lemma_digits_roundtrip(s: Seq<char>, i: int, n: int, k: nat)
    requires
        0 <= n < pow10(k),
        0 <= i,
        i + k <= s.len(),
        s.subrange(i, i + k) == spec_digits(n, k),
    ensures
        spec_parse_digits(s, i, k) == Some(n),
    decreases k,
{
    lemma_spec_digits_len(n, k);
    if k == 0 {
        assert(n == 0);
    } else {
        let km1 = (k - 1) as nat;
        lemma_spec_digits_len(n / 10, km1);
        assert(s.subrange(i, i + km1) =~= spec_digits(n / 10, km1)) by {
            assert forall|j: int| 0 <= j < km1 implies #[trigger] s.subrange(i, i + km1)[j]
                == spec_digits(n / 10, km1)[j] by {
                assert(s.subrange(i, i + k)[j] == spec_digits(n, k)[j]);
            }
        }
        assert(n / 10 < pow10(km1)) by {
            lemma_pow10_pos(km1);
            assert(n < 10 * pow10(km1));
            assert(n == 10 * (n / 10) + n % 10);
            if n / 10 >= pow10(km1) {
                assert(10 * (n / 10) >= 10 * pow10(km1)) by (nonlinear_arith)
                    requires
                        n / 10 >= pow10(km1),
                ;
            }
        }
        lemma_digits_roundtrip(s, i, n / 10, km1);
        assert(s[i + k - 1] == spec_digits(n, k)[k - 1]) by {
            assert(s.subrange(i, i + k)[k - 1] == spec_digits(n, k)[k - 1]);
        }
        assert(spec_digits(n, k)[k - 1] == digit_char(n % 10));
        assert(is_digit_char(digit_char(n % 10)));
        assert(digit_val(digit_char(n % 10)) == n % 10);
        assert(spec_parse_digits(s, i, k) == Some((n / 10) * 10 + n % 10));
        assert((n / 10) * 10 + n % 10 == n);
    }
}

/// Parsing a rendered number field gives back the number.
pub proof fn lemma_num_roundtrip(s: Seq<char>, i: int, n: u64)
    requires
        0 <= i,
        i + NUM_WIDTH <= s.len(),
        s.subrange(i, i + NUM_WIDTH) == spec_num(n),
    ensures
        spec_parse_num(s, i) == Some((n, i + NUM_WIDTH)),
{
    lemma_pow10_num_width();
    lemma_digits_roundtrip(s, i, n as int, NUM_WIDTH as nat);
}

/// Splitting fact: where a concatenation sits in `s`, each half sits at its
/// own offset.
pub proof fn lemma_subrange_split(s: Seq<char>, i: int, a: Seq<char>, b: Seq<char>)
    requires
        0 <= i,
        i + a.len() + b.len() <= s.len(),
        s.subrange(i, i + a.len() + b.len()) == a + b,
    ensures
        s.subrange(i, i + a.len()) == a,
        s.subrange(i + a.len(), i + a.len() + b.len()) == b,
{
    let whole = s.subrange(i, i + a.len() + b.len());
    assert(s.subrange(i, i + a.len()) =~= a) by {
        assert forall|j: int|
            0 <= j < a.len() implies #[trigger] s.subrange(i, i + a.len())[j] == a[j] by {
            assert(whole[j] == (a + b)[j]);
        }
    }
    assert(s.subrange(i + a.len(), i + a.len() + b.len()) =~= b) by {
        assert forall|j: int|
            0 <= j < b.len() implies #[trigger] s.subrange(i + a.len(), i + a.len() + b.len())[j]
            == b[j] by {
            assert(whole[a.len() + j] == (a + b)[a.len() + j]);
        }
    }
}

/// Parsing a rendered text field gives back the text.
pub proof fn lemma_text_roundtrip(s: Seq<char>, i: int, t: Seq<char>)
    requires
        0 <= i,
        t.len() <= u64::MAX,
        i + spec_text(t).len() <= s.len(),
        s.subrange(i, i + spec_text(t).len()) == spec_text(t),
    ensures
        spec_parse_text(s, i) == Some((t, i + spec_text(t).len())),
        spec_text(t).len() == NUM_WIDTH + t.len(),
{
    let lenfield = spec_num(t.len() as u64);
    lemma_spec_digits_len(t.len() as int, NUM_WIDTH as nat);
    lemma_subrange_split(s, i, lenfield, t);
    lemma_num_roundtrip(s, i, t.len() as u64);
    assert(s.subrange(i + NUM_WIDTH, i + NUM_WIDTH + t.len()) == t);
}

/// Renders the transcript's pairs from turn index `k` on: each pair is the
/// user text then the assistant text, as text fields.
pub open spec fn spec_render_turns_from(ts: Seq<TurnV>, k: int) -> Seq<char>
    decreases ts.len() - k,
{
    if k < 0 || k + 2 > ts.len() {
        Seq::empty()
    } else {
        spec_text(ts[k].text) + spec_text(ts[k + 1].text) + spec_render_turns_from(ts, k + 2)
    }
}

/// The whole save document for one session.
pub open spec fn spec_render(sv: SessionV) -> Seq<char> {
    spec_num(sv.difficulty) + spec_num(sv.attempts) + spec_num(sv.hints_used) + spec_num(sv.score)
        + spec_text(sv.riddle) + spec_text(sv.started) + spec_num((sv.transcript.len() / 2) as u64)
        + spec_render_turns_from(sv.transcript, 0)
}

/// Reads `pairs` transcript pairs at `i`, appending them to `acc` in order,
/// the user turn before the assistant turn.
pub open spec fn spec_parse_turns(s: Seq<char>, i: int, pairs: nat, acc: Seq<TurnV>) -> Option<
    (Seq<TurnV>, int),
>
    decreases pairs,
{
    if pairs == 0 {
        Some((acc, i))
    } else {
        match spec_parse_text(s, i) {
            None => None,
            Some((u, j)) => match spec_parse_text(s, j) {
                None => None,
                Some((a, j2)) => spec_parse_turns(
                    s,
                    j2,
                    (pairs - 1) as nat,
                    acc + seq![
                        TurnV { role: Role::User, text: u },
                        TurnV { role: Role::Assistant, text: a },
                    ],
                ),
            },
        }
    }
}

/// Reads a whole save document. Only a complete, well-formed document passes:
/// a difficulty outside the three tiers, a turn count too large for a
/// transcript, or any trailing or missing characters are a shape mismatch.
pub open spec fn spec_parse(s: Seq<char>) -> Option<SessionV> {
    match spec_parse_num(s, 0) {
        None => None,
        Some((difficulty, i1)) => if difficulty >= 3 {
            None
        } else {
            match spec_parse_num(s, i1) {
                None => None,
                Some((attempts, i2)) => match spec_parse_num(s, i2) {
                    None => None,
                    Some((hints, i3)) => match spec_parse_num(s, i3) {
                        None => None,
                        Some((score, i4)) => match spec_parse_text(s, i4) {
                            None => None,
                            Some((riddle, i5)) => match spec_parse_text(s, i5) {
                                None => None,
                                Some((started, i6)) => match spec_parse_num(s, i6) {
                                    None => None,
                                    Some((pairs, i7)) => if pairs > (u64::MAX - 2) / 2 {
                                        None
                                    } else {
                                        match spec_parse_turns(s, i7, pairs as nat, Seq::empty()) {
                                            None => None,
                                            Some((ts, end)) => if end == s.len() {
                                                Some(
                                                    SessionV {
                                                        difficulty,
                                                        riddle,
                                                        attempts,
                                                        hints_used: hints,
                                                        score,
                                                        transcript: ts,
                                                        started,
                                                    },
                                                )
                                            } else {
                                                None
                                            },
                                        }
                                    },
                                },
                            },
                        },
                    },
                },
            }
        },
    }
}

/// What a successful turn parse yields: the accumulator kept intact, followed
/// by exactly `pairs` alternating user/assistant turns with machine-bounded
/// texts.
pub proof fn lemma_parse_turns_props(s: Seq<char>, i: int, pairs: nat, acc: Seq<TurnV>)
    requires
        spec_parse_turns(s, i, pairs, acc) is Some,
    ensures
        ({
            let (ts, end) = spec_parse_turns(s, i, pairs, acc)->Some_0;
            &&& ts.len() == acc.len() + 2 * pairs
            &&& forall|j: int| 0 <= j < acc.len() ==> ts[j] == acc[j]
            &&& forall|j: int|
                acc.len() <= j < ts.len() ==> (#[trigger] ts[j]).role == (if (j - acc.len()) % 2
                    == 0 {
                    Role::User
                } else {
                    Role::Assistant
                })
            &&& forall|j: int|
                acc.len() <= j < ts.len() ==> (#[trigger] ts[j]).text.len() <= u64::MAX
        }),
    decreases pairs,
{
    if pairs > 0 {
        let (u, j) = spec_parse_text(s, i)->Some_0;
        let (a, j2) = spec_parse_text(s, j)->Some_0;
        let acc2 = acc + seq![
            TurnV { role: Role::User, text: u },
            TurnV { role: Role::Assistant, text: a },
        ];
        lemma_parse_turns_props(s, j2, (pairs - 1) as nat, acc2);
    }
}

/// Parsing rendered transcript pairs gives back exactly those turns.
pub proof fn lemma_turns_roundtrip(s: Seq<char>, i: int, ts: Seq<TurnV>, k: int, acc: Seq<TurnV>)
    requires
        0 <= i,
        0 <= k <= ts.len(),
        k % 2 == 0,
        ts.len() % 2 == 0,
        forall|j: int|
            0 <= j < ts.len() ==> (#[trigger] ts[j]).role == (if j % 2 == 0 {
                Role::User
            } else {
                Role::Assistant
            }),
        forall|j: int| 0 <= j < ts.len() ==> (#[trigger] ts[j]).text.len() <= u64::MAX,
        i + spec_render_turns_from(ts, k).len() <= s.len(),
        s.subrange(i, i + spec_render_turns_from(ts, k).len()) == spec_render_turns_from(ts, k),
    ensures
        spec_parse_turns(s, i, ((ts.len() - k) / 2) as nat, acc) == Some(
            (acc + ts.subrange(k, ts.len() as int), i + spec_render_turns_from(ts, k).len()),
        ),
    decreases ts.len() - k,
{
    if k == ts.len() {
        assert(acc + ts.subrange(k, ts.len() as int) =~= acc);
    } else {
        let ut = spec_text(ts[k].text);
        let at = spec_text(ts[k + 1].text);
        let rest = spec_render_turns_from(ts, k + 2);
        assert(spec_render_turns_from(ts, k) =~= ut + (at + rest));
        lemma_subrange_split(s, i, ut, at + rest);
        lemma_subrange_split(s, i + ut.len(), at, rest);
        lemma_text_roundtrip(s, i, ts[k].text);
        lemma_text_roundtrip(s, i + ut.len(), ts[k + 1].text);
        let acc2 = acc + seq![
            TurnV { role: Role::User, text: ts[k].text },
            TurnV { role: Role::Assistant, text: ts[k + 1].text },
        ];
        lemma_turns_roundtrip(s, i + ut.len() + at.len(), ts, k + 2, acc2);
        assert(acc2 + ts.subrange(k + 2, ts.len() as int) =~= acc + ts.subrange(
            k,
            ts.len() as int,
        )) by {
            assert(ts[k].role == Role::User);
            assert(ts[k + 1].role == Role::Assistant);
            assert(ts.subrange(k, ts.len() as int)[0] == ts[k]);
            assert(ts.subrange(k, ts.len() as int)[1] == ts[k + 1]);
        }
    }
}

/// The round trip: parsing the rendering of any well-formed session gives
/// back exactly that session, field for field, transcript order included.
pub proof fn lemma_render_parse_roundtrip(sv: SessionV)
    requires
        sv.wf(),
    ensures
        spec_parse(spec_render(sv)) == Some(sv),
{
    let s = spec_render(sv);
    let n_d = spec_num(sv.difficulty);
    let n_a = spec_num(sv.attempts);
    let n_h = spec_num(sv.hints_used);
    let n_s = spec_num(sv.score);
    let t_r = spec_text(sv.riddle);
    let t_t = spec_text(sv.started);
    let pairs = (sv.transcript.len() / 2) as u64;
    let n_p = spec_num(pairs);
    let body = spec_render_turns_from(sv.transcript, 0);
    lemma_spec_digits_len(sv.difficulty as int, NUM_WIDTH as nat);
    lemma_spec_digits_len(sv.attempts as int, NUM_WIDTH as nat);
    lemma_spec_digits_len(sv.hints_used as int, NUM_WIDTH as nat);
    lemma_spec_digits_len(sv.score as int, NUM_WIDTH as nat);
    lemma_spec_digits_len(sv.riddle.len() as int, NUM_WIDTH as nat);
    lemma_spec_digits_len(sv.started.len() as int, NUM_WIDTH as nat);
    lemma_spec_digits_len(pairs as int, NUM_WIDTH as nat);
    assert(s.subrange(0, s.len() as int) =~= n_d + (n_a + (n_h + (n_s + (t_r + (t_t + (n_p
        + body)))))));
    lemma_subrange_split(s, 0, n_d, n_a + (n_h + (n_s + (t_r + (t_t + (n_p + body))))));
    let i1 = n_d.len() as int;
    lemma_num_roundtrip(s, 0, sv.difficulty);
    lemma_subrange_split(s, i1, n_a, n_h + (n_s + (t_r + (t_t + (n_p + body)))));
    let i2 = i1 + n_a.len();
    lemma_num_roundtrip(s, i1, sv.attempts);
    lemma_subrange_split(s, i2, n_h, n_s + (t_r + (t_t + (n_p + body))));
    let i3 = i2 + n_h.len();
    lemma_num_roundtrip(s, i2, sv.hints_used);
    lemma_subrange_split(s, i3, n_s, t_r + (t_t + (n_p + body)));
    let i4 = i3 + n_s.len();
    lemma_num_roundtrip(s, i3, sv.score);
    lemma_subrange_split(s, i4, t_r, t_t + (n_p + body));
    let i5 = i4 + t_r.len();
    lemma_text_roundtrip(s, i4, sv.riddle);
    lemma_subrange_split(s, i5, t_t, n_p + body);
    let i6 = i5 + t_t.len();
    lemma_text_roundtrip(s, i5, sv.started);
    lemma_subrange_split(s, i6, n_p, body);
    let i7 = i6 + n_p.len();
    lemma_num_roundtrip(s, i6, pairs);
    lemma_turns_roundtrip(s, i7, sv.transcript, 0, Seq::empty());
    assert(Seq::empty() + sv.transcript.subrange(0, sv.transcript.len() as int)
        =~= sv.transcript);
    assert(i7 + body.len() == s.len());
    let parsed = spec_parse(s)->Some_0;
    assert(parsed.transcript == sv.transcript);
    assert(parsed == sv);
}

fn digit_str(d: u64) -> (r: &'static str)
    requires
        d < 10,
    ensures
        r@ == seq![digit_char(d as int)],
{
    match d {
        0 => {
            proof {
                reveal_strlit("0");
                assert("0"@ =~= seq![digit_char(0)]);
            }
            "0"
        },
        1 => {
            proof {
                reveal_strlit("1");
                assert("1"@ =~= seq![digit_char(1)]);
            }
            "1"
        },
        2 => {
            proof {
                reveal_strlit("2");
                assert("2"@ =~= seq![digit_char(2)]);
            }
            "2"
        },
        3 => {
            proof {
                reveal_strlit("3");
                assert("3"@ =~= seq![digit_char(3)]);
            }
            "3"
        },
        4 => {
            proof {
                reveal_strlit("4");
                assert("4"@ =~= seq![digit_char(4)]);
            }
            "4"
        },
        5 => {
            proof {
                reveal_strlit("5");
                assert("5"@ =~= seq![digit_char(5)]);
            }
            "5"
        },
        6 => {
            proof {
                reveal_strlit("6");
                assert("6"@ =~= seq![digit_char(6)]);
            }
            "6"
        },
        7 => {
            proof {
                reveal_strlit("7");
                assert("7"@ =~= seq![digit_char(7)]);
            }
            "7"
        },
        8 => {
            proof {
                reveal_strlit("8");
                assert("8"@ =~= seq![digit_char(8)]);
            }
            "8"
        },
        _ => {
            proof {
                reveal_strlit("9");
                assert("9"@ =~= seq![digit_char(9)]);
            }
            "9"
        },
    }
}

fn push_digits(out: &mut String, n: u64, k: usize)
    ensures
        final(out)@ == old(out)@ + spec_digits(n as int, k as nat),
    decreases k,
{
    if k == 0 {
        proof {
            assert(out@ =~= old(out)@ + spec_digits(n as int, 0));
        }
    } else {
        push_digits(out, n / 10, k - 1);
        out.append(digit_str(n % 10));
        proof {
            assert((n / 10) as int == n as int / 10);
            assert((n % 10) as int == n as int % 10);
            assert(out@ =~= old(out)@ + spec_digits(n as int, k as nat));
        }
    }
}

fn push_num(out: &mut String, n: u64)
    ensures
        final(out)@ == old(out)@ + spec_num(n),
{
    push_digits(out, n, NUM_WIDTH);
}

fn push_text(out: &mut String, t: &str)
    requires
        t@.len() <= u64::MAX,
    ensures
        final(out)@ == old(out)@ + spec_text(t@),
{
    let l: usize = t.unicode_len();
    push_num(out, l as u64);
    out.append(t);
    proof {
        assert(out@ =~= old(out)@ + spec_text(t@));
    }
}

/// Renders a session as its save document.
pub fn render_session(s: &Session) -> (out: String)
    requires
        s@.wf(),
    ensures
        out@ == spec_render(s@),
{
    let mut out = String::new();
    push_num(&mut out, s.difficulty());
    push_num(&mut out, s.attempts());
    push_num(&mut out, s.hints_used());
    push_num(&mut out, s.score());
    push_text(&mut out, s.current_riddle().as_str());
    push_text(&mut out, s.started_at().as_str());
    let t = s.transcript();
    let n: usize = t.len();
    let npairs: usize = n / 2;
    push_num(&mut out, npairs as u64);
    let ghost base = out@;
    let mut i: usize = 0;
    while i < npairs
        invariant
            s@.wf(),
            t@ == s@.transcript,
            n == t@.len(),
            npairs == n / 2,
            i <= npairs,
            out@ + spec_render_turns_from(t@, 2 * i as int) == base + spec_render_turns_from(
                t@,
                0,
            ),
        decreases npairs - i,
    {
        assert(2 * i + 1 < n);
        let u = t.get(2 * i);
        push_text(&mut out, u.text.as_str());
        let a = t.get(2 * i + 1);
        push_text(&mut out, a.text.as_str());
        proof {
            assert(out@ + spec_render_turns_from(t@, 2 * (i + 1) as int) =~= base
                + spec_render_turns_from(t@, 0));
        }
        i = i + 1;
    }
    proof {
        assert(spec_render_turns_from(t@, 2 * npairs as int) =~= Seq::<char>::empty());
        assert(out@ =~= base + spec_render_turns_from(t@, 0));
        assert(out@ =~= spec_render(s@));
    }
    out
}

fn char_to_digit(c: char) -> (r: Option<u64>)
    ensures
        match r {
            Some(d) => is_digit_char(c) && d as int == digit_val(c),
            None => !is_digit_char(c),
        },
{
    match c {
        '0' => Some(0),
        '1' => Some(1),
        '2' => Some(2),
        '3' => Some(3),
        '4' => Some(4),
        '5' => Some(5),
        '6' => Some(6),
        '7' => Some(7),
        '8' => Some(8),
        '9' => Some(9),
        _ => None,
    }
}

fn parse_digits(s: &str, n: usize, i: usize, k: usize) -> (r: Option<u128>)
    requires
        n == s@.len(),
        i <= n,
        k <= NUM_WIDTH,
    ensures
        match r {
            Some(v) => spec_parse_digits(s@, i as int, k as nat) == Some(v as int),
            None => spec_parse_digits(s@, i as int, k as nat) is None,
        },
    decreases k,
{
    if k > n - i {
        return None;
    }
    if k == 0 {
        return Some(0);
    }
    match parse_digits(s, n, i, k - 1) {
        None => None,
        Some(v) => {
            let c = s.get_char(i + k - 1);
            match char_to_digit(c) {
                None => None,
                Some(d) => {
                    proof {
                        lemma_parse_digits_bound(s@, i as int, (k - 1) as nat);
                        lemma_pow10_mono((k - 1) as nat, 19);
                        reveal_with_fuel(pow10, 21);
                    }
                    Some(v * 10 + d as u128)
                },
            }
        },
    }
}

fn parse_num_at(s: &str, n: usize, i: usize) -> (r: Option<(u64, usize)>)
    requires
        n == s@.len(),
        i <= n,
    ensures
        match r {
            Some(p) => spec_parse_num(s@, i as int) == Some((p.0, p.1 as int)) && i <= p.1 <= n,
            None => spec_parse_num(s@, i as int) is None,
        },
{
    match parse_digits(s, n, i, NUM_WIDTH) {
        None => None,
        Some(v) => {
            if v <= u64::MAX as u128 {
                Some((v as u64, i + NUM_WIDTH))
            } else {
                None
            }
        },
    }
}

fn parse_text_at(s: &str, n: usize, i: usize) -> (r: Option<(String, usize)>)
    requires
        n == s@.len(),
        i <= n,
    ensures
        match r {
            Some(p) => spec_parse_text(s@, i as int) == Some((p.0@, p.1 as int)) && i <= p.1 <= n,
            None => spec_parse_text(s@, i as int) is None,
        },
{
    match parse_num_at(s, n, i) {
        None => None,
        Some((len, j)) => {
            if len > (n - j) as u64 {
                return None;
            }
            let l = len as usize;
            let sub = s.substring_char(j, j + l);
            Some((String::from_str(sub), j + l))
        },
    }
}

fn parse_turns_at(s: &str, n: usize, i: usize, pairs: u64) -> (r: Option<(Vec<Turn>, usize)>)
    requires
        n == s@.len(),
        i <= n,
    ensures
        match r {
            Some(p) => spec_parse_turns(s@, i as int, pairs as nat, Seq::empty()) == Some(
                (p.0@.map_values(|t: Turn| t@), p.1 as int),
            ) && p.1 <= n,
            None => spec_parse_turns(s@, i as int, pairs as nat, Seq::empty()) is None,
        },
{
    let mut ts: Vec<Turn> = Vec::new();
    let mut cur: usize = i;
    let mut c: u64 = 0;
    proof {
        assert(ts@.map_values(|t: Turn| t@) =~= Seq::<TurnV>::empty());
    }
    while c < pairs
        invariant
            n == s@.len(),
            cur <= n,
            c <= pairs,
            spec_parse_turns(s@, i as int, pairs as nat, Seq::empty()) == spec_parse_turns(
                s@,
                cur as int,
                (pairs - c) as nat,
                ts@.map_values(|t: Turn| t@),
            ),
        decreases pairs - c,
    {
        let ghost acc = ts@.map_values(|t: Turn| t@);
        match parse_text_at(s, n, cur) {
            None => {
                return None;
            },
            Some((u, j1)) => {
                match parse_text_at(s, n, j1) {
                    None => {
                        return None;
                    },
                    Some((a, j2)) => {
                        let ghost uv = u@;
                        let ghost av = a@;
                        ts.push(Turn::new(Role::User, u));
                        ts.push(Turn::new(Role::Assistant, a));
                        proof {
                            assert(ts@.map_values(|t: Turn| t@) =~= acc + seq![
                                TurnV { role: Role::User, text: uv },
                                TurnV { role: Role::Assistant, text: av },
                            ]);
                        }
                        cur = j2;
                        c = c + 1;
                    },
                }
            },
        }
    }
    Some((ts, cur))
}

/// Whatever parses is a well-formed session: the three-tier difficulty, the
/// paired alternating transcript and the machine-limit text bounds all come
/// with a successful parse.
pub proof fn lemma_parse_wf(s: Seq<char>)
    requires
        spec_parse(s) is Some,
    ensures
        spec_parse(s)->Some_0.wf(),
{
    let sv = spec_parse(s)->Some_0;
    let (_, i1) = spec_parse_num(s, 0)->Some_0;
    let (_, i2) = spec_parse_num(s, i1)->Some_0;
    let (_, i3) = spec_parse_num(s, i2)->Some_0;
    let (_, i4) = spec_parse_num(s, i3)->Some_0;
    let (_, i5) = spec_parse_text(s, i4)->Some_0;
    let (_, i6) = spec_parse_text(s, i5)->Some_0;
    let (pairs, i7) = spec_parse_num(s, i6)->Some_0;
    lemma_parse_turns_props(s, i7, pairs as nat, Seq::empty());
}

/// Parses a save document back into a session. Exactly the documents that
/// the abstract parse accepts come back `Ok`; everything else is a corrupt
/// save, surfaced as such rather than silently replaced.
pub fn parse_session(s: &str) -> (r: Result<Session, GameError>)
    ensures
        match spec_parse(s@) {
            Some(sv) => r matches Ok(sess) && sess@ == sv && sess@.wf(),
            None => r matches Err(e) && e == GameError::CorruptSave,
        },
{
    let n: usize = s.unicode_len();
    let (difficulty, i1) = match parse_num_at(s, n, 0) {
        None => {
            return Err(GameError::CorruptSave);
        },
        Some(p) => p,
    };
    if difficulty >= 3 {
        return Err(GameError::CorruptSave);
    }
    let (attempts, i2) = match parse_num_at(s, n, i1) {
        None => {
            return Err(GameError::CorruptSave);
        },
        Some(p) => p,
    };
    let (hints, i3) = match parse_num_at(s, n, i2) {
        None => {
            return Err(GameError::CorruptSave);
        },
        Some(p) => p,
    };
    let (score, i4) = match parse_num_at(s, n, i3) {
        None => {
            return Err(GameError::CorruptSave);
        },
        Some(p) => p,
    };
    let (riddle, i5) = match parse_text_at(s, n, i4) {
        None => {
            return Err(GameError::CorruptSave);
        },
        Some(p) => p,
    };
    let (started, i6) = match parse_text_at(s, n, i5) {
        None => {
            return Err(GameError::CorruptSave);
        },
        Some(p) => p,
    };
    let (pairs, i7) = match parse_num_at(s, n, i6) {
        None => {
            return Err(GameError::CorruptSave);
        },
        Some(p) => p,
    };
    if pairs > (u64::MAX - 2) / 2 {
        return Err(GameError::CorruptSave);
    }
    let (turns, end) = match parse_turns_at(s, n, i7, pairs) {
        None => {
            return Err(GameError::CorruptSave);
        },
        Some(p) => p,
    };
    if end != n {
        return Err(GameError::CorruptSave);
    }
    let sess = Session::assemble(
        difficulty,
        riddle,
        attempts,
        hints,
        score,
        Transcript::from_turns(turns),
        started,
    );
    proof {
        lemma_parse_wf(s@);
    }
    Ok(sess)
}

/// Loads the save slot: a missing slot is a fresh default session, not an
/// error; a slot that exists but does not parse is a corrupt save.
pub fn load_slot(content: Option<&str>) -> (r: Result<Session, GameError>)
    ensures
        match content {
            None => r matches Ok(sess) && sess@.difficulty == 1 && sess@.riddle.len() == 0
                && sess@.attempts == 0 && sess@.hints_used == 0 && sess@.score == 0
                && sess@.transcript.len() == 0 && sess@.wf(),
            Some(text) => match spec_parse(text@) {
                Some(sv) => r matches Ok(sess) && sess@ == sv && sess@.wf(),
                None => r matches Err(e) && e == GameError::CorruptSave,
            },
        },
{
    match content {
        None => Ok(Session::empty(crate::guardian::now_rfc3339())),
        Some(text) => parse_session(text),
    }
}

} // verus!
