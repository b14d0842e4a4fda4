//! Winner ranking: given the measured value and the guesses of a round,
//! compute winner and runner-up by closeness of guess, the earlier submission
//! breaking ties.

use vstd::prelude::*;
use crate::types::{Guess, RankOutcome};

verus! {

/// Distance between a guessed value and the measured value.
pub open spec fn dist_of(guess: int, actual: int) -> int {
    if guess >= actual {
        guess - actual
    } else {
        actual - guess
    }
}

/// Strict ranking order between two guesses against a measured value:
/// `a` ranks strictly before `b` when its distance is smaller, or when the
/// distances are equal and `a` was submitted strictly earlier.
pub open spec fn rank_lt(a: Guess, b: Guess, actual: int) -> bool {
    ||| dist_of(a.guess as int, actual) < dist_of(b.guess as int, actual)
    ||| (dist_of(a.guess as int, actual) == dist_of(b.guess as int, actual)
        && a.submitted_at < b.submitted_at)
}

/// Index `i` holds the first guess of `gs` that no other guess ranks strictly
/// before: every guess at an earlier index ranks strictly after it. This is
/// the element a stable sort by (distance, submission time) would put first.
pub open spec fn is_first_min(gs: Seq<Guess>, actual: int, i: int) -> bool {
    &&& 0 <= i < gs.len()
    &&& forall|j: int| 0 <= j < gs.len() ==> !rank_lt(#[trigger] gs[j], gs[i], actual)
    &&& forall|j: int| 0 <= j < i ==> rank_lt(gs[i], #[trigger] gs[j], actual)
}

/// Like [`is_first_min`], but over the guesses of `gs` other than the one at
/// index `skip`: the element a stable sort would put second when `skip` is
/// first.
pub open spec fn is_first_min_except(gs: Seq<Guess>, actual: int, skip: int, i: int) -> bool {
    &&& 0 <= i < gs.len()
    &&& i != skip
    &&& forall|j: int| 0 <= j < gs.len() && j != skip ==> !rank_lt(#[trigger] gs[j], gs[i], actual)
    &&& forall|j: int| 0 <= j < i && j != skip ==> rank_lt(gs[i], #[trigger] gs[j], actual)
}

/// What a correct ranking of `gs` against `actual` returns: a winner exactly
/// when any guess exists, a runner-up exactly when a second guess exists, the
/// winner the first guess under the ranking order, the runner-up the first
/// among the rest, and the exact-match flag set exactly when the winner's
/// distance is zero.
pub open spec fn rank_outcome_ok(gs: Seq<Guess>, actual: int, out: RankOutcome) -> bool {
    &&& (out.winning_fid is Some <==> gs.len() >= 1)
    &&& (out.second_place_winner_fid is Some <==> gs.len() >= 2)
    &&& gs.len() == 0 ==> !out.is_exact_match
    &&& gs.len() >= 1 ==> exists|w: int|
        {
            &&& #[trigger] is_first_min(gs, actual, w)
            &&& out.winning_fid == Some(gs[w].fid)
            &&& (out.is_exact_match <==> dist_of(gs[w].guess as int, actual) == 0)
            &&& gs.len() >= 2 ==> exists|u: int|
                #[trigger] is_first_min_except(gs, actual, w, u)
                    && out.second_place_winner_fid == Some(gs[u].fid)
        }
}

/// Exact distance between a guessed value and the measured value, computed
/// without overflow in 128-bit arithmetic.
fn distance(guess: i64, actual: i64) -> (d: i128)
    ensures
        d == dist_of(guess as int, actual as int),
{
    let wide: i128 = (guess as i128) - (actual as i128);
    if wide >= 0 {
        wide
    } else {
        -wide
    }
}

/// Whether the guess at index `a` ranks strictly before the one at index `b`.
fn ranks_before(gs: &Vec<Guess>, a: usize, b: usize, actual: i64) -> (r: bool)
    requires
        a < gs@.len(),
        b < gs@.len(),
    ensures
        r == rank_lt(gs@[a as int], gs@[b as int], actual as int),
{
    let da = distance(gs[a].guess, actual);
    let db = distance(gs[b].guess, actual);
    da < db || (da == db && gs[a].submitted_at < gs[b].submitted_at)
}

/// Winner and runner-up of a round: every guess is ranked by distance to
/// `actual`, the earlier submission breaking ties; the winner is the
/// first-ranked guess and the runner-up the second, each absent when too few
/// guesses exist. The exact-match flag reports a winning distance of zero.
/// With no guesses at all there is no winner and no runner-up, and that is
/// not an error.
pub fn rank_guesses(gs: &Vec<Guess>, actual: i64) -> (out: RankOutcome)
    ensures
        rank_outcome_ok(gs@, actual as int, out),
{
    if gs.len() == 0 {
        return RankOutcome {
            winning_fid: None,
            second_place_winner_fid: None,
            is_exact_match: false,
        };
    }

    let mut best: usize = 0;
    let mut i: usize = 1;
    while i < gs.len()
        invariant
            1 <= i <= gs@.len(),
            best < i,
            forall|j: int| 0 <= j < i ==> !rank_lt(#[trigger] gs@[j], gs@[best as int], actual as int),
            forall|j: int| 0 <= j < best ==> rank_lt(gs@[best as int], #[trigger] gs@[j], actual as int),
        decreases gs@.len() - i,
    {
        if ranks_before(gs, i, best, actual) {
            proof {
                assert forall|j: int| 0 <= j < i implies
                    rank_lt(gs@[i as int], #[trigger] gs@[j], actual as int) by {
                    assert(!rank_lt(gs@[j], gs@[best as int], actual as int));
                }
            }
            best = i;
        }
        i = i + 1;
    }
    proof {
        assert(is_first_min(gs@, actual as int, best as int));
    }

    let exact = distance(gs[best].guess, actual) == 0;

    let mut second: Option<usize> = None;
    let mut k: usize = 0;
    while k < gs.len()
        invariant
            k <= gs@.len(),
            best < gs@.len(),
            is_first_min(gs@, actual as int, best as int),
            second is None ==> (k == 0 || (k == 1 && best == 0)),
            second matches Some(s) ==> {
                &&& s < k
                &&& s != best
                &&& forall|j: int| 0 <= j < k && j != best
                    ==> !rank_lt(#[trigger] gs@[j], gs@[s as int], actual as int)
                &&& forall|j: int| 0 <= j < s && j != best
                    ==> rank_lt(gs@[s as int], #[trigger] gs@[j], actual as int)
            },
        decreases gs@.len() - k,
    {
        if k != best {
            match second {
                None => {
                    second = Some(k);
                }
                Some(s) => {
                    if ranks_before(gs, k, s, actual) {
                        proof {
                            assert forall|j: int| 0 <= j < k && j != best implies
                                rank_lt(gs@[k as int], #[trigger] gs@[j], actual as int) by {
                                assert(!rank_lt(gs@[j], gs@[s as int], actual as int));
                            }
                        }
                        second = Some(k);
                    }
                }
            }
        }
        k = k + 1;
    }

    let runner_up: Option<i64> = match second {
        None => None,
        Some(s) => {
            proof {
                assert(is_first_min_except(gs@, actual as int, best as int, s as int));
            }
            Some(gs[s].fid)
        }
    };
    proof {
        if gs@.len() >= 2 {
            assert(second is Some);
        }
    }

    RankOutcome {
        winning_fid: Some(gs[best].fid),
        second_place_winner_fid: runner_up,
        is_exact_match: exact,
    }
}

} // verus!
