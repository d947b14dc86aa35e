//! Scoring: a pure function of difficulty, attempts taken and hints used.

use vstd::prelude::*;

verus! {

/// Base score awarded for a riddle of the given difficulty; any value outside
/// the three tiers falls back to the medium base.
pub open spec fn base_score(difficulty: u64) -> int {
    if difficulty == 0 {
        10
    } else if difficulty == 1 {
        25
    } else if difficulty == 2 {
        50
    } else {
        25
    }
}

/// The score for solving a riddle: the base for the difficulty, minus 5 for
/// every attempt beyond the first and 10 per hint, floored at zero.
pub open spec fn score_spec(difficulty: u64, attempts: u64, hints: u64) -> int {
    let extra = if attempts >= 1 { attempts - 1 } else { 0 };
    let raw = base_score(difficulty) - 5 * extra - 10 * hints;
    if raw >= 0 {
        raw
    } else {
        0
    }
}

/// Computes the score awarded for a solved riddle.
pub fn compute_score(difficulty: u64, attempts: u64, hints: u64) -> (score: u64)
    ensures
        score == score_spec(difficulty, attempts, hints),
        score <= 50,
{
    let base: u64 = match difficulty {
        0 => 10,
        1 => 25,
        2 => 50,
        _ => 25,
    };
    let extra: u64 = if attempts >= 1 {
        attempts - 1
    } else {
        0
    };
    if extra > 10 || hints > 5 {
        return 0;
    }
    let penalty: u64 = 5 * extra + 10 * hints;
    if penalty >= base {
        0
    } else {
        base - penalty
    }
}

/// The score never goes below zero and never above the largest base.
pub proof fn lemma_score_bounds(difficulty: u64, attempts: u64, hints: u64)
    ensures
        0 <= score_spec(difficulty, attempts, hints) <= 50,
{
}

/// Taking more attempts or using more hints never raises the score.
pub proof fn lemma_score_monotone(
    difficulty: u64,
    attempts1: u64,
    hints1: u64,
    attempts2: u64,
    hints2: u64,
)
    requires
        attempts1 <= attempts2,
        hints1 <= hints2,
    ensures
        score_spec(difficulty, attempts2, hints2) <= score_spec(difficulty, attempts1, hints1),
{
}

} // verus!
