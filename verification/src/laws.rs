//! The laws of the game, stated and proved against the operations' own
//! specifications: what every round's times satisfy, which submissions and
//! check-ins are rejected, and why re-running the maintenance sweep is
//! harmless.

use vstd::prelude::*;
use crate::types::{CheckIn, GameError, Round};
use crate::state::{GameState, auto_close_rounds, checkin_decision, close_due,
    close_round_decision, due_count, finalize_decision, has_round, has_user_guess, is_due,
    round_at, round_ix, submit_guess_decision};
use crate::streak::day_bucket;

verus! {

/// Every round of a well-formed store ends exactly its duration after it
/// starts. The equation is part of [`GameState::wf`], which every operation
/// requires and re-establishes, so it holds when a round is created and never
/// changes afterward.
pub proof fn lemma_round_times_coherent(s: GameState, i: int)
    requires
        s.wf(),
        0 <= i < s.rounds@.len(),
    ensures
        s.rounds@[i].end_time == s.rounds@[i].start_time + s.rounds@[i].duration_minutes * 60,
{
}

/// A user who already has a guess recorded for a round cannot submit
/// another: while the round is open and inside its window, the submission
/// decision for that user is `DuplicateSubmission`. The guessed value plays
/// no part — it does not even appear here.
pub proof fn lemma_duplicate_guess_rejected(s: GameState, round_id: u64, fid: i64, now: i64)
    requires
        has_round(s.rounds@, round_id),
        round_at(s.rounds@, round_id).status is Open,
        round_at(s.rounds@, round_id).start_time <= now < round_at(s.rounds@, round_id).end_time,
        has_user_guess(s.guesses@, round_id, fid),
    ensures
        submit_guess_decision(s, round_id, fid, now) == Some(GameError::DuplicateSubmission),
{
}

/// A guess that arrives at or after an open round's end time is rejected as
/// `WindowClosed`, for every user and every value.
pub proof fn lemma_guess_after_end_rejected(s: GameState, round_id: u64, fid: i64, now: i64)
    requires
        s.wf(),
        has_round(s.rounds@, round_id),
        round_at(s.rounds@, round_id).status is Open,
        now >= round_at(s.rounds@, round_id).end_time,
    ensures
        submit_guess_decision(s, round_id, fid, now) == Some(GameError::WindowClosed),
{
    let i = round_ix(s.rounds@, round_id);
    assert(0 <= i < s.rounds@.len() && s.rounds@[i].round_id == round_id);
    assert(crate::state::round_wf(s.rounds@[i]));
}

/// A guess that arrives exactly at an open round's start time is accepted,
/// provided the user has no earlier guess on the round: the window is closed
/// at its end, not at its start.
pub proof fn lemma_guess_at_start_accepted(s: GameState, round_id: u64, fid: i64, now: i64)
    requires
        s.wf(),
        has_round(s.rounds@, round_id),
        round_at(s.rounds@, round_id).status is Open,
        now == round_at(s.rounds@, round_id).start_time,
        !has_user_guess(s.guesses@, round_id, fid),
    ensures
        submit_guess_decision(s, round_id, fid, now) is None,
{
    let i = round_ix(s.rounds@, round_id);
    assert(0 <= i < s.rounds@.len() && s.rounds@[i].round_id == round_id);
    assert(crate::state::round_wf(s.rounds@[i]));
}

/// A second check-in attempt in the same calendar day is rejected as
/// `AlreadyCheckedIn`, whatever the hour of either attempt. Together with
/// the check-in operation's contract — a rejected check-in writes nothing —
/// a same-day repeat adds no check-in row and changes no user total.
pub proof fn lemma_second_checkin_same_day_rejected(
    checkins: Seq<CheckIn>,
    user: Seq<char>,
    earlier: i64,
    now: i64,
)
    requires
        crate::state::has_checkin_on(checkins, user, day_bucket(earlier as int)),
        day_bucket(now as int) == day_bucket(earlier as int),
    ensures
        checkin_decision(checkins, user, now) == Some(GameError::AlreadyCheckedIn),
{
}

/// Finalizing a round that is still open is rejected as `InvalidState`: the
/// round must be explicitly closed first.
pub proof fn lemma_finalize_open_rejected(rounds: Seq<Round>, round_id: u64)
    requires
        has_round(rounds, round_id),
        round_at(rounds, round_id).status is Open,
    ensures
        finalize_decision(rounds, round_id) == Some(GameError::InvalidState),
{
}

/// A finished round is terminal: no lifecycle operation accepts it again.
/// Guesses and manual closing are rejected, finalizing it twice is rejected,
/// and the maintenance sweep leaves it untouched.
pub proof fn lemma_finished_is_terminal(s: GameState, round_id: u64, fid: i64, now: i64)
    requires
        has_round(s.rounds@, round_id),
        round_at(s.rounds@, round_id).status is Finished,
    ensures
        submit_guess_decision(s, round_id, fid, now) == Some(GameError::InvalidState),
        close_round_decision(s.rounds@, round_id) == Some(GameError::InvalidState),
        finalize_decision(s.rounds@, round_id) == Some(GameError::InvalidState),
        close_due(round_at(s.rounds@, round_id), now) == round_at(s.rounds@, round_id),
{
}

/// A round the sweep at time `now` has already processed is settled: it is
/// not due at any time up to `now`, and a later sweep leaves it unchanged.
proof fn lemma_close_due_settled(r: Round, now: i64, t: i64)
    requires
        t <= now,
    ensures
        !is_due(close_due(r, now), t),
        close_due(close_due(r, now), t) == close_due(r, now),
{
}

/// A collection none of whose rounds is due counts zero due rounds.
proof fn lemma_due_count_none(rounds: Seq<Round>, now: i64)
    requires
        forall|i: int| 0 <= i < rounds.len() ==> !is_due(#[trigger] rounds[i], now),
    ensures
        due_count(rounds, now) == 0,
    decreases rounds.len(),
{
    if rounds.len() > 0 {
        assert(forall|i: int|
            0 <= i < rounds.drop_last().len() ==> (#[trigger] rounds.drop_last()[i]) == rounds[i]);
        lemma_due_count_none(rounds.drop_last(), now);
        assert(rounds.last() == rounds[rounds.len() - 1]);
    }
}

/// The maintenance sweep is idempotent: after a sweep at time `now`, a
/// second sweep at any time up to `now` finds zero due rounds and changes no
/// round. Together with the sweep's contract — a sweep that counts zero due
/// rounds performs no write at all, not even a log entry — re-running it is
/// harmless.
pub proof fn lemma_auto_close_idempotent(rounds: Seq<Round>, now: i64, t: i64)
    requires
        t <= now,
    ensures
        due_count(auto_close_rounds(rounds, now), t) == 0,
        auto_close_rounds(auto_close_rounds(rounds, now), t) == auto_close_rounds(rounds, now),
{
    let m = auto_close_rounds(rounds, now);
    assert forall|i: int| 0 <= i < m.len() implies !is_due(#[trigger] m[i], t) by {
        assert(m[i] == close_due(rounds[i], now));
        lemma_close_due_settled(rounds[i], now, t);
    }
    lemma_due_count_none(m, t);
    assert forall|i: int| 0 <= i < m.len() implies #[trigger] auto_close_rounds(m, t)[i] == m[i] by {
        lemma_close_due_settled(rounds[i], now, t);
        assert(m[i] == close_due(rounds[i], now));
    }
    assert(auto_close_rounds(m, t) =~= m);
}

} // verus!
