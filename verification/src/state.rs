//! The game's store and its operations.
//!
//! A [`GameState`] holds every record collection of the game. Each operation
//! reads what it needs, computes, and writes its results as one atomic unit;
//! a failed operation changes nothing. The well-formedness predicate
//! [`GameState::wf`] carries the data-model invariants: identifiers are
//! unique, every round's end time is its start time plus its duration, at
//! most one guess per user and round, at most one check-in per user and
//! calendar day, and each user's check-in total counts that user's check-in
//! rows.

use vstd::prelude::*;
use crate::types::{CheckIn, CheckInOutcome, ChatMessage, GameError, Guess, LogEvent, PrizeConfig,
    RankOutcome, Round, RoundStatus, UserStat};
use crate::streak::day_bucket;

verus! {

/// A round is well formed when its duration is positive, its times are
/// epoch seconds with `end_time` exactly `duration_minutes` minutes after
/// `start_time`, and its outcome fields are absent until it is finished.
pub open spec fn round_wf(r: Round) -> bool {
    &&& 1 <= r.duration_minutes
    &&& 0 <= r.start_time
    &&& r.end_time == r.start_time + r.duration_minutes * 60
    &&& (r.status is Finished || (r.actual_tx_count is None && r.winning_fid is None
        && r.second_place_winner_fid is None && r.block_hash is None))
}

/// A guess carries an epoch-second submission time.
pub open spec fn guess_wf(g: Guess) -> bool {
    0 <= g.submitted_at
}

/// A user's totals are consistent: the streak is at least one and never
/// above the longest streak, and every total is an epoch second or a
/// nonnegative count.
pub open spec fn stat_wf(s: UserStat) -> bool {
    &&& 1 <= s.current_streak <= s.longest_streak
    &&& 0 <= s.total_points
    &&& 1 <= s.total_checkins
    &&& 0 <= s.last_checkin_date
    &&& 0 <= s.created_at
}

/// A check-in row records the streak it was earned at and exactly the points
/// that streak awards.
pub open spec fn checkin_wf(c: CheckIn) -> bool {
    &&& 0 <= c.checkin_date
    &&& 1 <= c.streak_count
    &&& c.points_earned == crate::streak::points_for(c.streak_count as int)
}

/// How many check-in rows of `s` belong to `user`.
pub open spec fn count_checkins_for(s: Seq<CheckIn>, user: Seq<char>) -> int
    decreases s.len(),
{
    if s.len() == 0 {
        0
    } else {
        count_checkins_for(s.drop_last(), user) + if s.last().user_identifier@ == user {
            1int
        } else {
            0int
        }
    }
}

/// Appending a check-in row raises the count for its own user by one and
/// leaves every other user's count unchanged.
pub proof fn lemma_count_checkins_push(s: Seq<CheckIn>, c: CheckIn, user: Seq<char>)
    ensures
        count_checkins_for(s.push(c), user) == count_checkins_for(s, user) + if c.user_identifier@
            == user {
            1int
        } else {
            0int
        },
{
    assert(s.push(c).drop_last() =~= s);
    assert(s.push(c).last() == c);
}

/// Whether some round of `rounds` carries `round_id`.
pub open spec fn has_round(rounds: Seq<Round>, round_id: u64) -> bool {
    exists|i: int| 0 <= i < rounds.len() && (#[trigger] rounds[i]).round_id == round_id
}

/// The index of the round carrying `round_id`; meaningful only when
/// [`has_round`] holds and identifiers are unique.
pub open spec fn round_ix(rounds: Seq<Round>, round_id: u64) -> int {
    choose|i: int| 0 <= i < rounds.len() && (#[trigger] rounds[i]).round_id == round_id
}

/// The round of `rounds` carrying `round_id`.
pub open spec fn round_at(rounds: Seq<Round>, round_id: u64) -> Round {
    rounds[round_ix(rounds, round_id)]
}

/// Whether user `fid` already has a guess recorded for `round_id`.
pub open spec fn has_user_guess(gs: Seq<Guess>, round_id: u64, fid: i64) -> bool {
    exists|i: int| 0 <= i < gs.len() && (#[trigger] gs[i]).round_id == round_id && gs[i].fid == fid
}

/// Whether some stat row belongs to `user`.
pub open spec fn has_stat(stats: Seq<UserStat>, user: Seq<char>) -> bool {
    exists|i: int| 0 <= i < stats.len() && (#[trigger] stats[i]).user_identifier@ == user
}

/// The index of `user`'s stat row; meaningful only when [`has_stat`] holds
/// and users are unique.
pub open spec fn stat_ix(stats: Seq<UserStat>, user: Seq<char>) -> int {
    choose|i: int| 0 <= i < stats.len() && (#[trigger] stats[i]).user_identifier@ == user
}

/// The stat row of `user`.
pub open spec fn stat_at(stats: Seq<UserStat>, user: Seq<char>) -> UserStat {
    stats[stat_ix(stats, user)]
}

/// Whether `user` already has a check-in whose date falls in the calendar
/// day starting at `day`.
pub open spec fn has_checkin_on(cs: Seq<CheckIn>, user: Seq<char>, day: int) -> bool {
    exists|i: int| 0 <= i < cs.len() && (#[trigger] cs[i]).user_identifier@ == user && day_bucket(
        cs[i].checkin_date as int,
    ) == day
}

/// All record collections of the prediction game, with the counters that
/// assign fresh identifiers. Log and chat entries take their identifiers
/// from the collection length instead, since nothing ever looks them up.
pub struct GameState {
    pub rounds: Vec<Round>,
    pub guesses: Vec<Guess>,
    pub user_stats: Vec<UserStat>,
    pub checkins: Vec<CheckIn>,
    pub chat_messages: Vec<ChatMessage>,
    pub logs: Vec<LogEvent>,
    pub prize_config: Option<PrizeConfig>,
    pub next_round_id: u64,
    pub next_guess_id: u64,
    pub next_stat_id: u64,
    pub next_checkin_id: u64,
}

/// The rounds of `b` are those of `a`.
pub open spec fn same_rounds(a: GameState, b: GameState) -> bool {
    &&& a.rounds@ == b.rounds@
    &&& a.next_round_id == b.next_round_id
}

/// The guesses of `b` are those of `a`.
pub open spec fn same_guesses(a: GameState, b: GameState) -> bool {
    &&& a.guesses@ == b.guesses@
    &&& a.next_guess_id == b.next_guess_id
}

/// The check-in subsystem of `b` is that of `a`.
pub open spec fn same_users(a: GameState, b: GameState) -> bool {
    &&& a.user_stats@ == b.user_stats@
    &&& a.checkins@ == b.checkins@
    &&& a.next_stat_id == b.next_stat_id
    &&& a.next_checkin_id == b.next_checkin_id
}

/// The chat and prize-configuration records of `b` are those of `a`.
pub open spec fn same_extras(a: GameState, b: GameState) -> bool {
    &&& a.chat_messages@ == b.chat_messages@
    &&& a.prize_config == b.prize_config
}

/// Every game record of `b` is that of `a`; only the audit log may differ.
pub open spec fn same_records(a: GameState, b: GameState) -> bool {
    &&& same_rounds(a, b)
    &&& same_guesses(a, b)
    &&& same_users(a, b)
    &&& same_extras(a, b)
}

/// Nothing at all of `b` differs from `a`: no write took place.
pub open spec fn same_state(a: GameState, b: GameState) -> bool {
    &&& same_records(a, b)
    &&& a.logs@ == b.logs@
}

/// Exactly one audit entry separates `b` from `a`: the old entries are kept
/// and the new last entry carries `event_type` and `ts`.
pub open spec fn logged(a: GameState, b: GameState, event_type: Seq<char>, ts: i64) -> bool {
    &&& b.logs@.len() == a.logs@.len() + 1
    &&& b.logs@.subrange(0, a.logs@.len() as int) == a.logs@
    &&& b.logs@.last().event_type@ == event_type
    &&& b.logs@.last().timestamp == ts
}

/// Whether `duration_minutes` is acceptable for a new round.
pub open spec fn create_round_decision(duration_minutes: i64) -> Option<GameError> {
    if duration_minutes <= 0 {
        Some(GameError::InvalidArgument)
    } else {
        None
    }
}

/// Which failure, if any, a guess by `fid` on round `round_id` at time `now`
/// reports. The checks apply in this order: the round must exist, must still
/// be open, `now` must lie in `[start_time, end_time)`, and the user must not
/// already have a guess on the round. The guessed value plays no part.
pub open spec fn submit_guess_decision(s: GameState, round_id: u64, fid: i64, now: i64) -> Option<
    GameError,
> {
    if !has_round(s.rounds@, round_id) {
        Some(GameError::NotFound)
    } else if !(round_at(s.rounds@, round_id).status is Open) {
        Some(GameError::InvalidState)
    } else if now < round_at(s.rounds@, round_id).start_time {
        Some(GameError::NotStarted)
    } else if now >= round_at(s.rounds@, round_id).end_time {
        Some(GameError::WindowClosed)
    } else if has_user_guess(s.guesses@, round_id, fid) {
        Some(GameError::DuplicateSubmission)
    } else {
        None
    }
}

/// Whether the auto-close sweep at time `now` owes `r` a transition: the
/// round is still open although its end time has passed. Status, not time,
/// decides what is already closed.
pub open spec fn is_due(r: Round, now: i64) -> bool {
    r.status is Open && r.end_time <= now
}

/// What the auto-close sweep at time `now` leaves of `r`.
pub open spec fn close_due(r: Round, now: i64) -> Round {
    if is_due(r, now) {
        Round { status: RoundStatus::Closed, ..r }
    } else {
        r
    }
}

/// What the auto-close sweep at time `now` leaves of a round collection.
pub open spec fn auto_close_rounds(rounds: Seq<Round>, now: i64) -> Seq<Round> {
    rounds.map_values(|r: Round| close_due(r, now))
}

/// How many rounds the auto-close sweep at time `now` owes a transition.
pub open spec fn due_count(rounds: Seq<Round>, now: i64) -> int
    decreases rounds.len(),
{
    if rounds.len() == 0 {
        0
    } else {
        due_count(rounds.drop_last(), now) + if is_due(rounds.last(), now) {
            1int
        } else {
            0int
        }
    }
}

/// One more round extends the due count by whether that round is due.
pub proof fn lemma_due_count_take(rounds: Seq<Round>, now: i64, i: int)
    requires
        0 <= i < rounds.len(),
    ensures
        due_count(rounds.take(i + 1), now) == due_count(rounds.take(i), now) + if is_due(
            rounds[i],
            now,
        ) {
            1int
        } else {
            0int
        },
{
    assert(rounds.take(i + 1).drop_last() =~= rounds.take(i));
    assert(rounds.take(i + 1).last() == rounds[i]);
}

/// The due count lies between zero and the number of rounds.
pub proof fn lemma_due_count_bounds(rounds: Seq<Round>, now: i64)
    ensures
        0 <= due_count(rounds, now) <= rounds.len(),
    decreases rounds.len(),
{
    if rounds.len() > 0 {
        lemma_due_count_bounds(rounds.drop_last(), now);
    }
}

/// A zero due count means no single round is due.
pub proof fn lemma_due_count_zero(rounds: Seq<Round>, now: i64)
    requires
        due_count(rounds, now) == 0,
    ensures
        forall|i: int| 0 <= i < rounds.len() ==> !is_due(#[trigger] rounds[i], now),
    decreases rounds.len(),
{
    if rounds.len() > 0 {
        lemma_due_count_bounds(rounds.drop_last(), now);
        lemma_due_count_zero(rounds.drop_last(), now);
        assert forall|i: int| 0 <= i < rounds.len() implies !is_due(#[trigger] rounds[i], now) by {
            if i < rounds.len() - 1 {
                assert(rounds.drop_last()[i] == rounds[i]);
            } else {
                assert(rounds.last() == rounds[i]);
            }
        }
    }
}

/// Which failure, if any, closing `round_id` reports: the round must exist
/// and still be open.
pub open spec fn close_round_decision(rounds: Seq<Round>, round_id: u64) -> Option<GameError> {
    if !has_round(rounds, round_id) {
        Some(GameError::NotFound)
    } else if !(round_at(rounds, round_id).status is Open) {
        Some(GameError::InvalidState)
    } else {
        None
    }
}

/// One more check-in row extends the count by whether it belongs to `user`.
pub proof fn lemma_count_checkins_take(s: Seq<CheckIn>, user: Seq<char>, i: int)
    requires
        0 <= i < s.len(),
    ensures
        count_checkins_for(s.take(i + 1), user) == count_checkins_for(s.take(i), user) + if s[i].user_identifier@
            == user {
            1int
        } else {
            0int
        },
{
    assert(s.take(i + 1).drop_last() =~= s.take(i));
    assert(s.take(i + 1).last() == s[i]);
}

/// A user's count lies between zero and the number of rows.
pub proof fn lemma_count_checkins_bounds(s: Seq<CheckIn>, user: Seq<char>)
    ensures
        0 <= count_checkins_for(s, user) <= s.len(),
    decreases s.len(),
{
    if s.len() > 0 {
        lemma_count_checkins_bounds(s.drop_last(), user);
    }
}

/// No check-in rows means a zero count for any user; more precisely, a user
/// none of the rows belong to has a zero count.
pub proof fn lemma_count_checkins_zero(s: Seq<CheckIn>, user: Seq<char>)
    requires
        forall|i: int| 0 <= i < s.len() ==> (#[trigger] s[i]).user_identifier@ != user,
    ensures
        count_checkins_for(s, user) == 0,
    decreases s.len(),
{
    if s.len() > 0 {
        assert(forall|i: int|
            0 <= i < s.drop_last().len() ==> (#[trigger] s.drop_last()[i]) == s[i]);
        lemma_count_checkins_zero(s.drop_last(), user);
        assert(s.last() == s[s.len() - 1]);
    }
}

/// Bounds under which one more check-in cannot overflow a user's running
/// totals: far above anything a daily process can reach.
pub open spec fn stat_fits(s: UserStat) -> bool {
    &&& s.current_streak < 0x1000_0000_0000_0000
    &&& s.longest_streak < 0x1000_0000_0000_0000
    &&& s.total_points < 0x1000_0000_0000_0000
    &&& s.total_checkins < 0x1000_0000_0000_0000
}

/// Which failure, if any, a check-in by `user` at time `now` reports: a
/// second check-in in the same calendar day is rejected, whatever the hour.
pub open spec fn checkin_decision(checkins: Seq<CheckIn>, user: Seq<char>, now: i64) -> Option<
    GameError,
> {
    if has_checkin_on(checkins, user, day_bucket(now as int)) {
        Some(GameError::AlreadyCheckedIn)
    } else {
        None
    }
}

/// Whether `r` is not yet finished: still open, or closed awaiting its
/// result.
pub open spec fn is_active(r: Round) -> bool {
    r.status is Open || r.status is Closed
}

/// Whether some round of `rounds` is active.
pub open spec fn has_active_round(rounds: Seq<Round>) -> bool {
    exists|i: int| 0 <= i < rounds.len() && is_active(#[trigger] rounds[i])
}

/// Which failure, if any, saving a prize configuration reports: every amount
/// must be positive and the currency label must not be blank — empty, or
/// nothing but whitespace.
pub open spec fn prize_config_decision(
    jackpot_amount: i64,
    first_place_amount: i64,
    second_place_amount: i64,
    currency_type: Seq<char>,
) -> Option<GameError> {
    if jackpot_amount <= 0 || first_place_amount <= 0 || second_place_amount <= 0
        || crate::text::is_blank(currency_type) {
        Some(GameError::InvalidArgument)
    } else {
        None
    }
}

/// The decimal text of an optional user identifier, `none` when absent.
pub open spec fn opt_fid_text(o: Option<i64>) -> Seq<char> {
    match o {
        Some(f) => crate::text::dec_text(f as int),
        None => "none"@,
    }
}

/// What the `round_finished` audit entry's details say: the measured value
/// and the computed winner, runner-up and jackpot flag.
pub open spec fn round_finished_details(actual_tx_count: i64, out: RankOutcome) -> Seq<char> {
    "actual_tx_count="@ + crate::text::dec_text(actual_tx_count as int) + ", winner_fid="@
        + opt_fid_text(out.winning_fid) + ", runner_up_fid="@ + opt_fid_text(
        out.second_place_winner_fid,
    ) + ", jackpot="@ + (if out.is_exact_match {
        "true"@
    } else {
        "false"@
    })
}

/// Under unique stat users, the stat row found at index `i` is the row the
/// lookup functions denote.
pub proof fn lemma_stat_at_ix(stats: Seq<UserStat>, user: Seq<char>, i: int)
    requires
        0 <= i < stats.len(),
        stats[i].user_identifier@ == user,
        forall|p: int, q: int|
            0 <= p < q < stats.len() ==> (#[trigger] stats[p]).user_identifier@ != (
            #[trigger] stats[q]).user_identifier@,
    ensures
        has_stat(stats, user),
        stat_ix(stats, user) == i,
        stat_at(stats, user) == stats[i],
{
    assert(has_stat(stats, user));
    let j = stat_ix(stats, user);
    assert(0 <= j < stats.len() && stats[j].user_identifier@ == user);
    if j < i {
        assert(stats[j].user_identifier@ != stats[i].user_identifier@);
    } else if i < j {
        assert(stats[i].user_identifier@ != stats[j].user_identifier@);
    }
}

/// Which failure, if any, finalizing `round_id` reports: the round must
/// exist and must have been closed first. Finalizing a round still open, or
/// already finished, is rejected.
pub open spec fn finalize_decision(rounds: Seq<Round>, round_id: u64) -> Option<GameError> {
    if !has_round(rounds, round_id) {
        Some(GameError::NotFound)
    } else if !(round_at(rounds, round_id).status is Closed) {
        Some(GameError::InvalidState)
    } else {
        None
    }
}

/// The guesses recorded for round `round_id`, in submission order.
pub open spec fn round_guesses(gs: Seq<Guess>, round_id: u64) -> Seq<Guess>
    decreases gs.len(),
{
    if gs.len() == 0 {
        Seq::empty()
    } else {
        let rest = round_guesses(gs.drop_last(), round_id);
        if gs.last().round_id == round_id {
            rest.push(gs.last())
        } else {
            rest
        }
    }
}

/// Appending a guess extends its own round's guess list and no other's.
pub proof fn lemma_round_guesses_push(gs: Seq<Guess>, g: Guess, round_id: u64)
    ensures
        round_guesses(gs.push(g), round_id) == if g.round_id == round_id {
            round_guesses(gs, round_id).push(g)
        } else {
            round_guesses(gs, round_id)
        },
{
    assert(gs.push(g).drop_last() =~= gs);
    assert(gs.push(g).last() == g);
}

impl GameState {
    /// The data-model invariants, preserved by every operation.
    pub open spec fn wf(self) -> bool {
        &&& forall|i: int| 0 <= i < self.rounds@.len() ==> round_wf(#[trigger] self.rounds@[i])
        &&& forall|i: int|
            0 <= i < self.rounds@.len() ==> (#[trigger] self.rounds@[i]).round_id
                < self.next_round_id
        &&& forall|i: int, j: int|
            0 <= i < j < self.rounds@.len() ==> (#[trigger] self.rounds@[i]).round_id != (
            #[trigger] self.rounds@[j]).round_id
        &&& forall|i: int| 0 <= i < self.guesses@.len() ==> guess_wf(#[trigger] self.guesses@[i])
        &&& forall|i: int|
            0 <= i < self.guesses@.len() ==> (#[trigger] self.guesses@[i]).guess_id
                < self.next_guess_id
        &&& forall|i: int, j: int|
            0 <= i < j < self.guesses@.len() ==> !((#[trigger] self.guesses@[i]).round_id == (
            #[trigger] self.guesses@[j]).round_id && self.guesses@[i].fid == self.guesses@[j].fid)
        &&& forall|i: int|
            0 <= i < self.user_stats@.len() ==> stat_wf(#[trigger] self.user_stats@[i])
        &&& forall|i: int|
            0 <= i < self.user_stats@.len() ==> (#[trigger] self.user_stats@[i]).stat_id
                < self.next_stat_id
        &&& forall|i: int, j: int|
            0 <= i < j < self.user_stats@.len() ==> (
            #[trigger] self.user_stats@[i]).user_identifier@ != (
            #[trigger] self.user_stats@[j]).user_identifier@
        &&& forall|i: int|
            0 <= i < self.user_stats@.len() ==> (#[trigger] self.user_stats@[i]).total_checkins
                == count_checkins_for(self.checkins@, self.user_stats@[i].user_identifier@)
        &&& forall|i: int| 0 <= i < self.checkins@.len() ==> checkin_wf(#[trigger] self.checkins@[i])
        &&& forall|i: int|
            0 <= i < self.checkins@.len() ==> (#[trigger] self.checkins@[i]).checkin_id
                < self.next_checkin_id
        &&& forall|i: int, j: int|
            0 <= i < j < self.checkins@.len() ==> !((#[trigger] self.checkins@[i]).user_identifier@
                == (#[trigger] self.checkins@[j]).user_identifier@ && day_bucket(
                self.checkins@[i].checkin_date as int,
            ) == day_bucket(self.checkins@[j].checkin_date as int))
        &&& forall|i: int|
            0 <= i < self.checkins@.len() ==> has_stat(
                self.user_stats@,
                (#[trigger] self.checkins@[i]).user_identifier@,
            )
    }

    /// An empty store with no records and fresh counters.
    pub fn new() -> (s: GameState)
        ensures
            s.wf(),
            s.rounds@.len() == 0,
            s.guesses@.len() == 0,
            s.user_stats@.len() == 0,
            s.checkins@.len() == 0,
            s.chat_messages@.len() == 0,
            s.logs@.len() == 0,
            s.prize_config is None,
            s.next_round_id == 1,
            s.next_guess_id == 1,
            s.next_stat_id == 1,
            s.next_checkin_id == 1,
    {
        GameState {
            rounds: Vec::new(),
            guesses: Vec::new(),
            user_stats: Vec::new(),
            checkins: Vec::new(),
            chat_messages: Vec::new(),
            logs: Vec::new(),
            prize_config: None,
            next_round_id: 1,
            next_guess_id: 1,
            next_stat_id: 1,
            next_checkin_id: 1,
        }
    }

    /// Whether every round is well formed, below the identifier counter, and
    /// distinct in identifier from every other.
    fn rounds_ok(&self) -> (r: bool)
        ensures
            r == ({
                &&& forall|i: int|
                    0 <= i < self.rounds@.len() ==> round_wf(#[trigger] self.rounds@[i])
                &&& forall|i: int|
                    0 <= i < self.rounds@.len() ==> (#[trigger] self.rounds@[i]).round_id
                        < self.next_round_id
                &&& forall|i: int, j: int|
                    0 <= i < j < self.rounds@.len() ==> (#[trigger] self.rounds@[i]).round_id != (
                    #[trigger] self.rounds@[j]).round_id
            }),
    {
        let n = self.rounds.len();
        let mut i: usize = 0;
        while i < n
            invariant
                i <= n,
                n == self.rounds@.len(),
                forall|p: int| 0 <= p < i ==> round_wf(#[trigger] self.rounds@[p]),
                forall|p: int|
                    0 <= p < i ==> (#[trigger] self.rounds@[p]).round_id < self.next_round_id,
            decreases n - i,
        {
            let rd = &self.rounds[i];
            let row_ok = 1 <= rd.duration_minutes && 0 <= rd.start_time && (rd.end_time as i128)
                == (rd.start_time as i128) + (rd.duration_minutes as i128) * 60 && (matches!(
                rd.status,
                RoundStatus::Finished,
            ) || (rd.actual_tx_count.is_none() && rd.winning_fid.is_none()
                && rd.second_place_winner_fid.is_none() && rd.block_hash.is_none()));
            if !row_ok || rd.round_id >= self.next_round_id {
                return false;
            }
            i = i + 1;
        }
        let mut p: usize = 0;
        while p < n
            invariant
                p <= n,
                n == self.rounds@.len(),
                forall|a: int| 0 <= a < self.rounds@.len() ==> round_wf(#[trigger] self.rounds@[a]),
                forall|a: int|
                    0 <= a < self.rounds@.len() ==> (#[trigger] self.rounds@[a]).round_id
                        < self.next_round_id,
                forall|a: int, b: int|
                    0 <= a < b < self.rounds@.len() && a < p ==> (
                    #[trigger] self.rounds@[a]).round_id != (#[trigger] self.rounds@[b]).round_id,
            decreases n - p,
        {
            let mut q: usize = p + 1;
            while q < n
                invariant
                    p < q <= n,
                    p < n,
                    n == self.rounds@.len(),
                    forall|b: int|
                        p < b < q ==> (#[trigger] self.rounds@[b]).round_id
                            != self.rounds@[p as int].round_id,
                decreases n - q,
            {
                if self.rounds[q].round_id == self.rounds[p].round_id {
                    return false;
                }
                q = q + 1;
            }
            p = p + 1;
        }
        true
    }

    /// Whether every guess is well formed, below the identifier counter, and
    /// distinct from every other in its (round, user) pair.
    fn guesses_ok(&self) -> (r: bool)
        ensures
            r == ({
                &&& forall|i: int|
                    0 <= i < self.guesses@.len() ==> guess_wf(#[trigger] self.guesses@[i])
                &&& forall|i: int|
                    0 <= i < self.guesses@.len() ==> (#[trigger] self.guesses@[i]).guess_id
                        < self.next_guess_id
                &&& forall|i: int, j: int|
                    0 <= i < j < self.guesses@.len() ==> !((
                    #[trigger] self.guesses@[i]).round_id == (
                    #[trigger] self.guesses@[j]).round_id && self.guesses@[i].fid
                        == self.guesses@[j].fid)
            }),
    {
        let n = self.guesses.len();
        let mut i: usize = 0;
        while i < n
            invariant
                i <= n,
                n == self.guesses@.len(),
                forall|p: int| 0 <= p < i ==> guess_wf(#[trigger] self.guesses@[p]),
                forall|p: int|
                    0 <= p < i ==> (#[trigger] self.guesses@[p]).guess_id < self.next_guess_id,
            decreases n - i,
        {
            if self.guesses[i].submitted_at < 0 || self.guesses[i].guess_id
                >= self.next_guess_id {
                return false;
            }
            i = i + 1;
        }
        let mut p: usize = 0;
        while p < n
            invariant
                p <= n,
                n == self.guesses@.len(),
                forall|a: int| 0 <= a < self.guesses@.len() ==> guess_wf(#[trigger] self.guesses@[a]),
                forall|a: int|
                    0 <= a < self.guesses@.len() ==> (#[trigger] self.guesses@[a]).guess_id
                        < self.next_guess_id,
                forall|a: int, b: int|
                    0 <= a < b < self.guesses@.len() && a < p ==> !((
                    #[trigger] self.guesses@[a]).round_id == (
                    #[trigger] self.guesses@[b]).round_id && self.guesses@[a].fid
                        == self.guesses@[b].fid),
            decreases n - p,
        {
            let mut q: usize = p + 1;
            while q < n
                invariant
                    p < q <= n,
                    p < n,
                    n == self.guesses@.len(),
                    forall|b: int|
                        p < b < q ==> !((#[trigger] self.guesses@[b]).round_id
                            == self.guesses@[p as int].round_id && self.guesses@[b].fid
                            == self.guesses@[p as int].fid),
                decreases n - q,
            {
                if self.guesses[q].round_id == self.guesses[p].round_id && self.guesses[q].fid
                    == self.guesses[p].fid {
                    return false;
                }
                q = q + 1;
            }
            p = p + 1;
        }
        true
    }

    /// Whether every stat row is well formed, below the identifier counter,
    /// and distinct in user from every other.
    fn stats_ok(&self) -> (r: bool)
        ensures
            r == ({
                &&& forall|i: int|
                    0 <= i < self.user_stats@.len() ==> stat_wf(#[trigger] self.user_stats@[i])
                &&& forall|i: int|
                    0 <= i < self.user_stats@.len() ==> (#[trigger] self.user_stats@[i]).stat_id
                        < self.next_stat_id
                &&& forall|i: int, j: int|
                    0 <= i < j < self.user_stats@.len() ==> (
                    #[trigger] self.user_stats@[i]).user_identifier@ != (
                    #[trigger] self.user_stats@[j]).user_identifier@
            }),
    {
        let n = self.user_stats.len();
        let mut i: usize = 0;
        while i < n
            invariant
                i <= n,
                n == self.user_stats@.len(),
                forall|p: int| 0 <= p < i ==> stat_wf(#[trigger] self.user_stats@[p]),
                forall|p: int|
                    0 <= p < i ==> (#[trigger] self.user_stats@[p]).stat_id < self.next_stat_id,
            decreases n - i,
        {
            let st = &self.user_stats[i];
            let row_ok = 1 <= st.current_streak && st.current_streak <= st.longest_streak && 0
                <= st.total_points && 1 <= st.total_checkins && 0 <= st.last_checkin_date && 0
                <= st.created_at;
            if !row_ok || st.stat_id >= self.next_stat_id {
                return false;
            }
            i = i + 1;
        }
        let mut p: usize = 0;
        while p < n
            invariant
                p <= n,
                n == self.user_stats@.len(),
                forall|a: int|
                    0 <= a < self.user_stats@.len() ==> stat_wf(#[trigger] self.user_stats@[a]),
                forall|a: int|
                    0 <= a < self.user_stats@.len() ==> (#[trigger] self.user_stats@[a]).stat_id
                        < self.next_stat_id,
                forall|a: int, b: int|
                    0 <= a < b < self.user_stats@.len() && a < p ==> (
                    #[trigger] self.user_stats@[a]).user_identifier@ != (
                    #[trigger] self.user_stats@[b]).user_identifier@,
            decreases n - p,
        {
            let mut q: usize = p + 1;
            while q < n
                invariant
                    p < q <= n,
                    p < n,
                    n == self.user_stats@.len(),
                    forall|b: int|
                        p < b < q ==> (#[trigger] self.user_stats@[b]).user_identifier@
                            != self.user_stats@[p as int].user_identifier@,
                decreases n - q,
            {
                if self.user_stats[q].user_identifier == self.user_stats[p].user_identifier {
                    return false;
                }
                q = q + 1;
            }
            p = p + 1;
        }
        true
    }

    /// Whether every check-in row is well formed, below the identifier
    /// counter, and distinct from every other in its (user, calendar day)
    /// pair.
    fn checkins_ok(&self) -> (r: bool)
        ensures
            r == ({
                &&& forall|i: int|
                    0 <= i < self.checkins@.len() ==> checkin_wf(#[trigger] self.checkins@[i])
                &&& forall|i: int|
                    0 <= i < self.checkins@.len() ==> (#[trigger] self.checkins@[i]).checkin_id
                        < self.next_checkin_id
                &&& forall|i: int, j: int|
                    0 <= i < j < self.checkins@.len() ==> !((
                    #[trigger] self.checkins@[i]).user_identifier@ == (
                    #[trigger] self.checkins@[j]).user_identifier@ && day_bucket(
                        self.checkins@[i].checkin_date as int,
                    ) == day_bucket(self.checkins@[j].checkin_date as int))
            }),
    {
        let n = self.checkins.len();
        let mut i: usize = 0;
        while i < n
            invariant
                i <= n,
                n == self.checkins@.len(),
                forall|p: int| 0 <= p < i ==> checkin_wf(#[trigger] self.checkins@[p]),
                forall|p: int|
                    0 <= p < i ==> (#[trigger] self.checkins@[p]).checkin_id
                        < self.next_checkin_id,
            decreases n - i,
        {
            let c = &self.checkins[i];
            let row_ok = 0 <= c.checkin_date && 1 <= c.streak_count && (c.points_earned as i128)
                == 10 + 2 * (c.streak_count as i128);
            if !row_ok || c.checkin_id >= self.next_checkin_id {
                return false;
            }
            i = i + 1;
        }
        let mut p: usize = 0;
        while p < n
            invariant
                p <= n,
                n == self.checkins@.len(),
                forall|a: int|
                    0 <= a < self.checkins@.len() ==> checkin_wf(#[trigger] self.checkins@[a]),
                forall|a: int|
                    0 <= a < self.checkins@.len() ==> (#[trigger] self.checkins@[a]).checkin_id
                        < self.next_checkin_id,
                forall|a: int, b: int|
                    0 <= a < b < self.checkins@.len() && a < p ==> !((
                    #[trigger] self.checkins@[a]).user_identifier@ == (
                    #[trigger] self.checkins@[b]).user_identifier@ && day_bucket(
                        self.checkins@[a].checkin_date as int,
                    ) == day_bucket(self.checkins@[b].checkin_date as int)),
            decreases n - p,
        {
            let day_p = crate::streak::day_start(self.checkins[p].checkin_date);
            let mut q: usize = p + 1;
            while q < n
                invariant
                    p < q <= n,
                    p < n,
                    n == self.checkins@.len(),
                    forall|a: int|
                        0 <= a < self.checkins@.len() ==> checkin_wf(#[trigger] self.checkins@[a]),
                    day_p == day_bucket(self.checkins@[p as int].checkin_date as int),
                    forall|b: int|
                        p < b < q ==> !((#[trigger] self.checkins@[b]).user_identifier@
                            == self.checkins@[p as int].user_identifier@ && day_bucket(
                            self.checkins@[b].checkin_date as int,
                        ) == day_bucket(self.checkins@[p as int].checkin_date as int)),
                decreases n - q,
            {
                if self.checkins[q].user_identifier == self.checkins[p].user_identifier {
                    let day_q = crate::streak::day_start(self.checkins[q].checkin_date);
                    if day_q == day_p {
                        return false;
                    }
                }
                q = q + 1;
            }
            p = p + 1;
        }
        true
    }

    /// How many stored check-in rows belong to `user_identifier`.
    fn count_checkins(&self, user_identifier: &String) -> (n: usize)
        ensures
            n == count_checkins_for(self.checkins@, user_identifier@),
    {
        let mut n: usize = 0;
        let mut i: usize = 0;
        while i < self.checkins.len()
            invariant
                i <= self.checkins@.len(),
                n <= i,
                n == count_checkins_for(self.checkins@.take(i as int), user_identifier@),
            decreases self.checkins@.len() - i,
        {
            proof {
                lemma_count_checkins_take(self.checkins@, user_identifier@, i as int);
            }
            if self.checkins[i].user_identifier == *user_identifier {
                n = n + 1;
            }
            i = i + 1;
        }
        proof {
            assert(self.checkins@.take(self.checkins@.len() as int) =~= self.checkins@);
        }
        n
    }

    /// Whether the cross-collection links hold: each user's stored check-in
    /// total counts that user's check-in rows, and every check-in row's user
    /// has a stat row.
    fn links_ok(&self) -> (r: bool)
        ensures
            r == ({
                &&& forall|i: int|
                    0 <= i < self.user_stats@.len() ==> (
                    #[trigger] self.user_stats@[i]).total_checkins == count_checkins_for(
                        self.checkins@,
                        self.user_stats@[i].user_identifier@,
                    )
                &&& forall|i: int|
                    0 <= i < self.checkins@.len() ==> has_stat(
                        self.user_stats@,
                        (#[trigger] self.checkins@[i]).user_identifier@,
                    )
            }),
    {
        let n = self.user_stats.len();
        let mut i: usize = 0;
        while i < n
            invariant
                i <= n,
                n == self.user_stats@.len(),
                forall|p: int|
                    0 <= p < i ==> (#[trigger] self.user_stats@[p]).total_checkins
                        == count_checkins_for(
                        self.checkins@,
                        self.user_stats@[p].user_identifier@,
                    ),
            decreases n - i,
        {
            let cnt = self.count_checkins(&self.user_stats[i].user_identifier);
            let total = self.user_stats[i].total_checkins;
            proof {
                lemma_count_checkins_bounds(
                    self.checkins@,
                    self.user_stats@[i as int].user_identifier@,
                );
            }
            if total < 0 || (total as u64) != (cnt as u64) {
                return false;
            }
            i = i + 1;
        }
        let m = self.checkins.len();
        let mut j: usize = 0;
        while j < m
            invariant
                j <= m,
                m == self.checkins@.len(),
                forall|p: int|
                    0 <= p < j ==> has_stat(
                        self.user_stats@,
                        (#[trigger] self.checkins@[p]).user_identifier@,
                    ),
            decreases m - j,
        {
            match self.find_stat_index(&self.checkins[j].user_identifier) {
                Some(k) => {
                    proof {
                        assert(self.user_stats@[k as int].user_identifier@
                            == self.checkins@[j as int].user_identifier@);
                    }
                }
                None => {
                    return false;
                }
            }
            j = j + 1;
        }
        true
    }

    /// Whether the data-model invariants hold of this store, decided at run
    /// time: exactly [`GameState::wf`]. A caller that loads records from
    /// elsewhere — a database snapshot, say — can test the result before
    /// relying on the verified operations, whose contracts assume it.
    pub fn is_well_formed(&self) -> (r: bool)
        ensures
            r == self.wf(),
    {
        self.rounds_ok() && self.guesses_ok() && self.stats_ok() && self.checkins_ok()
            && self.links_ok()
    }

    /// Appends one audit entry. Audit writes are a side channel: they touch
    /// no game record.
    fn log_event(&mut self, event_type: &str, details: &str, timestamp: i64)
        ensures
            same_records(*old(self), *final(self)),
            logged(*old(self), *final(self), event_type@, timestamp),
            final(self).logs@.last().details@ == details@,
    {
        let log_id: u64 = self.logs.len() as u64;
        self.logs.push(LogEvent {
            log_id,
            event_type: event_type.to_owned(),
            details: details.to_owned(),
            timestamp,
        });
        proof {
            assert(self.logs@.subrange(0, old(self).logs@.len() as int) =~= old(self).logs@);
        }
    }

    /// The index of the round carrying `round_id`, if it exists.
    fn find_round_index(&self, round_id: u64) -> (r: Option<usize>)
        ensures
            match r {
                Some(i) => i < self.rounds@.len() && self.rounds@[i as int].round_id == round_id,
                None => !has_round(self.rounds@, round_id),
            },
    {
        let mut i: usize = 0;
        while i < self.rounds.len()
            invariant
                i <= self.rounds@.len(),
                forall|j: int| 0 <= j < i ==> (#[trigger] self.rounds@[j]).round_id != round_id,
            decreases self.rounds@.len() - i,
        {
            if self.rounds[i].round_id == round_id {
                return Some(i);
            }
            i = i + 1;
        }
        None
    }

    /// The round carrying `round_id`, if it exists.
    pub fn find_round(&self, round_id: u64) -> (r: Option<&Round>)
        requires
            self.wf(),
        ensures
            match r {
                Some(x) => has_round(self.rounds@, round_id) && *x == round_at(
                    self.rounds@,
                    round_id,
                ),
                None => !has_round(self.rounds@, round_id),
            },
    {
        match self.find_round_index(round_id) {
            Some(i) => {
                proof {
                    lemma_round_at_ix(self.rounds@, round_id, i as int);
                }
                Some(&self.rounds[i])
            }
            None => None,
        }
    }

    /// Opens a new prediction round. The round starts now, ends exactly
    /// `duration_minutes` minutes later, and is rejected as `InvalidArgument`
    /// exactly when the duration is not positive; nothing else can fail.
    /// On success the new round is appended with a fresh identifier, every
    /// other record is untouched, and one `round_created` entry is logged.
    pub fn create_round(
        &mut self,
        round_number: i64,
        duration_minutes: i64,
        prize: String,
        block_number: Option<i64>,
        now: i64,
    ) -> (r: Result<u64, GameError>)
        requires
            old(self).wf(),
            0 <= now,
            old(self).next_round_id < u64::MAX,
            duration_minutes > 0 ==> now + duration_minutes * 60 <= i64::MAX,
        ensures
            final(self).wf(),
            r is Err <==> create_round_decision(duration_minutes) is Some,
            r matches Err(e) ==> create_round_decision(duration_minutes) == Some(e) && same_state(
                *old(self),
                *final(self),
            ),
            r matches Ok(round_id) ==> {
                &&& round_id == old(self).next_round_id
                &&& final(self).next_round_id == old(self).next_round_id + 1
                &&& final(self).rounds@ == old(self).rounds@.push(
                    (Round {
                        round_id: round_id,
                        round_number: round_number,
                        start_time: now,
                        end_time: (now + duration_minutes * 60) as i64,
                        duration_minutes: duration_minutes,
                        prize: prize,
                        status: RoundStatus::Open,
                        block_number: block_number,
                        actual_tx_count: None,
                        winning_fid: None,
                        second_place_winner_fid: None,
                        block_hash: None,
                        created_at: now,
                    }),
                )
                &&& same_guesses(*old(self), *final(self))
                &&& same_users(*old(self), *final(self))
                &&& same_extras(*old(self), *final(self))
                &&& logged(*old(self), *final(self), "round_created"@, now)
            },
    {
        if duration_minutes <= 0 {
            return Err(GameError::InvalidArgument);
        }
        let round_id = self.next_round_id;
        let end_time = now + duration_minutes * 60;
        self.rounds.push(Round {
            round_id,
            round_number,
            start_time: now,
            end_time,
            duration_minutes,
            prize,
            status: RoundStatus::Open,
            block_number,
            actual_tx_count: None,
            winning_fid: None,
            second_place_winner_fid: None,
            block_hash: None,
            created_at: now,
        });
        self.next_round_id = round_id + 1;
        self.log_event("round_created", "a new round was opened", now);
        Ok(round_id)
    }

    /// Whether user `fid` already has a guess recorded for `round_id`.
    fn has_guess_for(&self, round_id: u64, fid: i64) -> (r: bool)
        ensures
            r == has_user_guess(self.guesses@, round_id, fid),
    {
        let mut i: usize = 0;
        while i < self.guesses.len()
            invariant
                i <= self.guesses@.len(),
                forall|j: int|
                    0 <= j < i ==> !((#[trigger] self.guesses@[j]).round_id == round_id
                        && self.guesses@[j].fid == fid),
            decreases self.guesses@.len() - i,
        {
            if self.guesses[i].round_id == round_id && self.guesses[i].fid == fid {
                return true;
            }
            i = i + 1;
        }
        false
    }

    /// Records one guess by user `fid` on round `round_id` at time `now`.
    /// The checks apply in order, each its own failure: the round must exist
    /// (`NotFound`), must still be open (`InvalidState`), `now` must lie in
    /// `[start_time, end_time)` (`NotStarted` / `WindowClosed`), and the user
    /// must not already have a guess on this round (`DuplicateSubmission`,
    /// whatever the value guessed). A failure writes nothing. On success the
    /// guess is appended with a fresh identifier and `submitted_at = now`,
    /// every other record is untouched, and one `guess_submitted` entry is
    /// logged.
    pub fn submit_guess(
        &mut self,
        round_id: u64,
        fid: i64,
        username: String,
        guess: i64,
        pfp_url: Option<String>,
        now: i64,
    ) -> (r: Result<u64, GameError>)
        requires
            old(self).wf(),
            0 <= now,
            old(self).next_guess_id < u64::MAX,
        ensures
            final(self).wf(),
            r is Err <==> submit_guess_decision(*old(self), round_id, fid, now) is Some,
            r matches Err(e) ==> submit_guess_decision(*old(self), round_id, fid, now) == Some(e)
                && same_state(*old(self), *final(self)),
            r matches Ok(guess_id) ==> {
                &&& guess_id == old(self).next_guess_id
                &&& final(self).next_guess_id == old(self).next_guess_id + 1
                &&& final(self).guesses@ == old(self).guesses@.push(
                    (Guess {
                        guess_id: guess_id,
                        round_id: round_id,
                        fid: fid,
                        username: username,
                        guess: guess,
                        pfp_url: pfp_url,
                        submitted_at: now,
                    }),
                )
                &&& has_user_guess(final(self).guesses@, round_id, fid)
                &&& same_rounds(*old(self), *final(self))
                &&& same_users(*old(self), *final(self))
                &&& same_extras(*old(self), *final(self))
                &&& logged(*old(self), *final(self), "guess_submitted"@, now)
            },
    {
        let ix = match self.find_round_index(round_id) {
            None => {
                return Err(GameError::NotFound);
            }
            Some(i) => i,
        };
        proof {
            lemma_round_at_ix(self.rounds@, round_id, ix as int);
        }
        if !matches!(self.rounds[ix].status, RoundStatus::Open) {
            return Err(GameError::InvalidState);
        }
        if now < self.rounds[ix].start_time {
            return Err(GameError::NotStarted);
        }
        if now >= self.rounds[ix].end_time {
            return Err(GameError::WindowClosed);
        }
        if self.has_guess_for(round_id, fid) {
            return Err(GameError::DuplicateSubmission);
        }
        let guess_id = self.next_guess_id;
        self.guesses.push(Guess {
            guess_id,
            round_id,
            fid,
            username,
            guess,
            pfp_url,
            submitted_at: now,
        });
        self.next_guess_id = guess_id + 1;
        proof {
            let gs = self.guesses@;
            let old_gs = old(self).guesses@;
            assert(gs.last().round_id == round_id && gs.last().fid == fid);
            assert(has_user_guess(gs, round_id, fid));
            assert forall|a: int, b: int| 0 <= a < b < gs.len() implies !((
            #[trigger] gs[a]).round_id == (#[trigger] gs[b]).round_id && gs[a].fid
                == gs[b].fid) by {
                if b == gs.len() - 1 {
                    assert(gs[a] == old_gs[a]);
                }
            }
        }
        self.log_event("guess_submitted", "a guess was recorded", now);
        Ok(guess_id)
    }

    /// The periodic maintenance sweep: closes every round that is still open
    /// although its end time has passed, and returns how many it closed.
    /// Rounds closed manually before their end time are not reprocessed,
    /// since status, not time, is what the sweep tests. A sweep that owes no
    /// round a transition writes nothing at all, so re-running it is
    /// harmless; a sweep that closed rounds logs one `auto_close_rounds`
    /// entry.
    pub fn tick_rounds(&mut self, now: i64) -> (count: u64)
        requires
            old(self).wf(),
            0 <= now,
        ensures
            final(self).wf(),
            final(self).rounds@ == auto_close_rounds(old(self).rounds@, now),
            count == due_count(old(self).rounds@, now),
            final(self).next_round_id == old(self).next_round_id,
            same_guesses(*old(self), *final(self)),
            same_users(*old(self), *final(self)),
            same_extras(*old(self), *final(self)),
            count == 0 ==> same_state(*old(self), *final(self)),
            count > 0 ==> logged(*old(self), *final(self), "auto_close_rounds"@, now),
    {
        let mut count: u64 = 0;
        let mut i: usize = 0;
        let n = self.rounds.len();
        while i < n
            invariant
                i <= n,
                n == self.rounds@.len(),
                n == old(self).rounds@.len(),
                forall|j: int|
                    0 <= j < i ==> self.rounds@[j] == close_due(
                        #[trigger] old(self).rounds@[j],
                        now,
                    ),
                forall|j: int| i <= j < n ==> self.rounds@[j] == #[trigger] old(self).rounds@[j],
                count == due_count(old(self).rounds@.take(i as int), now),
                count <= i,
                self.guesses@ == old(self).guesses@,
                self.user_stats@ == old(self).user_stats@,
                self.checkins@ == old(self).checkins@,
                self.chat_messages@ == old(self).chat_messages@,
                self.logs@ == old(self).logs@,
                self.prize_config == old(self).prize_config,
                self.next_round_id == old(self).next_round_id,
                self.next_guess_id == old(self).next_guess_id,
                self.next_stat_id == old(self).next_stat_id,
                self.next_checkin_id == old(self).next_checkin_id,
            decreases n - i,
        {
            let due = matches!(self.rounds[i].status, RoundStatus::Open) && self.rounds[i].end_time
                <= now;
            if due {
                let r = &mut self.rounds[i];
                r.status = RoundStatus::Closed;
                count = count + 1;
            }
            proof {
                lemma_due_count_take(old(self).rounds@, now, i as int);
            }
            i = i + 1;
        }
        proof {
            assert(old(self).rounds@.take(n as int) =~= old(self).rounds@);
            assert(self.rounds@ =~= auto_close_rounds(old(self).rounds@, now));
        }
        if count > 0 {
            self.log_event("auto_close_rounds", "due rounds were closed", now);
        } else {
            proof {
                lemma_due_count_zero(old(self).rounds@, now);
                assert(self.rounds@ =~= old(self).rounds@);
            }
        }
        count
    }

    /// The identifier of the most recently created round that is not yet
    /// finished — the open or closed round with the greatest identifier — or
    /// nothing when every round is finished or none exists. Read-only on the
    /// game records; one `active_round_checked` entry is logged for
    /// observability.
    pub fn get_active_round(&mut self, now: i64) -> (r: Option<u64>)
        requires
            old(self).wf(),
            0 <= now,
        ensures
            final(self).wf(),
            same_records(*old(self), *final(self)),
            logged(*old(self), *final(self), "active_round_checked"@, now),
            r is Some <==> has_active_round(old(self).rounds@),
            r matches Some(id) ==> {
                &&& has_round(old(self).rounds@, id)
                &&& is_active(round_at(old(self).rounds@, id))
                &&& forall|j: int|
                    0 <= j < old(self).rounds@.len() && is_active(#[trigger] old(self).rounds@[j])
                        ==> old(self).rounds@[j].round_id <= id
            },
    {
        let mut best: Option<u64> = None;
        let mut i: usize = 0;
        while i < self.rounds.len()
            invariant
                i <= self.rounds@.len(),
                *self == *old(self),
                best is None ==> forall|j: int|
                    0 <= j < i ==> !is_active(#[trigger] self.rounds@[j]),
                best matches Some(id) ==> {
                    &&& exists|j: int|
                        0 <= j < i && (#[trigger] self.rounds@[j]).round_id == id && is_active(
                            self.rounds@[j],
                        )
                    &&& forall|j: int|
                        0 <= j < i && is_active(#[trigger] self.rounds@[j])
                            ==> self.rounds@[j].round_id <= id
                },
            decreases self.rounds@.len() - i,
        {
            let active = matches!(self.rounds[i].status, RoundStatus::Open) || matches!(
                self.rounds[i].status,
                RoundStatus::Closed,
            );
            if active {
                match best {
                    None => {
                        best = Some(self.rounds[i].round_id);
                    }
                    Some(b) => {
                        if self.rounds[i].round_id > b {
                            best = Some(self.rounds[i].round_id);
                        }
                    }
                }
            }
            i = i + 1;
        }
        match best {
            None => {
                self.log_event("active_round_checked", "no round is awaiting its result", now);
                None
            }
            Some(id) => {
                proof {
                    let j = choose|j: int|
                        0 <= j < self.rounds@.len() && (#[trigger] self.rounds@[j]).round_id == id
                            && is_active(self.rounds@[j]);
                    lemma_round_at_ix(self.rounds@, id, j);
                }
                self.log_event("active_round_checked", "a round is awaiting its result", now);
                Some(id)
            }
        }
    }

    /// Replaces the singleton prize configuration: a trivial upsert keyed by
    /// a constant identifier. Rejected as `InvalidArgument` exactly when an
    /// amount is not positive or the currency label is blank — empty or
    /// nothing but whitespace — writing nothing; on success the stored
    /// configuration is exactly the given one and one `prize_config_saved`
    /// entry is logged.
    pub fn save_prize_config(
        &mut self,
        jackpot_amount: i64,
        first_place_amount: i64,
        second_place_amount: i64,
        currency_type: String,
        token_contract_address: String,
        now: i64,
    ) -> (r: Result<(), GameError>)
        requires
            old(self).wf(),
            0 <= now,
        ensures
            final(self).wf(),
            r is Err <==> prize_config_decision(
                jackpot_amount,
                first_place_amount,
                second_place_amount,
                currency_type@,
            ) is Some,
            r matches Err(e) ==> prize_config_decision(
                jackpot_amount,
                first_place_amount,
                second_place_amount,
                currency_type@,
            ) == Some(e) && same_state(*old(self), *final(self)),
            r is Ok ==> {
                &&& final(self).prize_config == Some(
                    (PrizeConfig {
                        config_id: 1,
                        jackpot_amount: jackpot_amount,
                        first_place_amount: first_place_amount,
                        second_place_amount: second_place_amount,
                        currency_type: currency_type,
                        token_contract_address: token_contract_address,
                        updated_at: now,
                    }),
                )
                &&& same_rounds(*old(self), *final(self))
                &&& same_guesses(*old(self), *final(self))
                &&& same_users(*old(self), *final(self))
                &&& final(self).chat_messages@ == old(self).chat_messages@
                &&& logged(*old(self), *final(self), "prize_config_saved"@, now)
            },
    {
        if jackpot_amount <= 0 || first_place_amount <= 0 || second_place_amount <= 0 {
            return Err(GameError::InvalidArgument);
        }
        if crate::text::str_is_blank(currency_type.as_str()) {
            return Err(GameError::InvalidArgument);
        }
        self.prize_config = Some(PrizeConfig {
            config_id: 1,
            jackpot_amount,
            first_place_amount,
            second_place_amount,
            currency_type,
            token_contract_address,
            updated_at: now,
        });
        self.log_event("prize_config_saved", "the prize configuration was replaced", now);
        Ok(())
    }

    /// The stored prize configuration, if one was ever saved.
    pub fn get_prize_config(&self) -> (r: &Option<PrizeConfig>)
        ensures
            *r == self.prize_config,
    {
        &self.prize_config
    }

    /// Stores one chat message: plain record storage with no computation,
    /// kept beside the game records. Returns the message's identifier; one
    /// `chat_message_sent` entry is logged.
    pub fn send_chat_message(
        &mut self,
        round_id: String,
        address: String,
        username: String,
        message: String,
        pfp_url: String,
        msg_type: String,
        now: i64,
    ) -> (chat_id: u64)
        requires
            old(self).wf(),
            0 <= now,
        ensures
            final(self).wf(),
            chat_id == old(self).chat_messages@.len(),
            final(self).chat_messages@ == old(self).chat_messages@.push(
                (ChatMessage {
                    chat_id: chat_id,
                    round_id: round_id,
                    address: address,
                    username: username,
                    message: message,
                    pfp_url: pfp_url,
                    timestamp: now,
                    msg_type: msg_type,
                }),
            ),
            same_rounds(*old(self), *final(self)),
            same_guesses(*old(self), *final(self)),
            same_users(*old(self), *final(self)),
            final(self).prize_config == old(self).prize_config,
            logged(*old(self), *final(self), "chat_message_sent"@, now),
    {
        let chat_id = self.chat_messages.len() as u64;
        self.chat_messages.push(ChatMessage {
            chat_id,
            round_id,
            address,
            username,
            message,
            pfp_url,
            timestamp: now,
            msg_type,
        });
        self.log_event("chat_message_sent", "a chat message was stored", now);
        chat_id
    }

    /// Whether `user_identifier` already checked in during the calendar day
    /// starting at `day`.
    fn has_checkin_for_day(&self, user_identifier: &String, day: i64) -> (r: bool)
        requires
            forall|i: int|
                0 <= i < self.checkins@.len() ==> checkin_wf(#[trigger] self.checkins@[i]),
        ensures
            r == has_checkin_on(self.checkins@, user_identifier@, day as int),
    {
        let mut i: usize = 0;
        while i < self.checkins.len()
            invariant
                i <= self.checkins@.len(),
                forall|k: int|
                    0 <= k < self.checkins@.len() ==> checkin_wf(#[trigger] self.checkins@[k]),
                forall|j: int|
                    0 <= j < i ==> !((#[trigger] self.checkins@[j]).user_identifier@
                        == user_identifier@ && day_bucket(self.checkins@[j].checkin_date as int)
                        == day as int),
            decreases self.checkins@.len() - i,
        {
            if self.checkins[i].user_identifier == *user_identifier {
                let cd = crate::streak::day_start(self.checkins[i].checkin_date);
                if cd == day {
                    return true;
                }
            }
            i = i + 1;
        }
        false
    }

    /// The index of `user_identifier`'s stat row, if one exists.
    fn find_stat_index(&self, user_identifier: &String) -> (r: Option<usize>)
        ensures
            match r {
                Some(i) => i < self.user_stats@.len()
                    && self.user_stats@[i as int].user_identifier@ == user_identifier@,
                None => !has_stat(self.user_stats@, user_identifier@),
            },
    {
        let mut i: usize = 0;
        while i < self.user_stats.len()
            invariant
                i <= self.user_stats@.len(),
                forall|j: int|
                    0 <= j < i ==> (#[trigger] self.user_stats@[j]).user_identifier@
                        != user_identifier@,
            decreases self.user_stats@.len() - i,
        {
            if self.user_stats[i].user_identifier == *user_identifier {
                return Some(i);
            }
            i = i + 1;
        }
        None
    }

    /// Records one daily check-in by `user_identifier` at time `now`. A
    /// second check-in in the same calendar day is rejected as
    /// `AlreadyCheckedIn` and writes nothing: no new check-in row, no change
    /// to the user's totals. On success the user's stat row is updated (or
    /// created on a first-ever check-in): checking in on the day right after
    /// the last check-in extends the streak by one, a longer gap (or no
    /// earlier check-in) resets it to one, the award is ten points plus twice
    /// the new streak, and the totals, the longest streak and the check-in
    /// day advance accordingly. One immutable check-in row carrying the new
    /// streak and the award is appended, and one `daily_checkin` entry is
    /// logged.
    pub fn daily_checkin(
        &mut self,
        user_identifier: String,
        username: String,
        pfp_url: String,
        now: i64,
    ) -> (r: Result<CheckInOutcome, GameError>)
        requires
            old(self).wf(),
            0 <= now,
            old(self).next_checkin_id < u64::MAX,
            old(self).next_stat_id < u64::MAX,
            forall|i: int|
                0 <= i < old(self).user_stats@.len() ==> stat_fits(
                    #[trigger] old(self).user_stats@[i],
                ),
        ensures
            final(self).wf(),
            r is Err <==> checkin_decision(old(self).checkins@, user_identifier@, now) is Some,
            r matches Err(e) ==> checkin_decision(old(self).checkins@, user_identifier@, now)
                == Some(e) && same_state(*old(self), *final(self)),
            r matches Ok(out) ==> {
                &&& (if has_stat(old(self).user_stats@, user_identifier@) {
                    let s = stat_at(old(self).user_stats@, user_identifier@);
                    &&& out.new_streak == crate::streak::next_streak(
                        s.current_streak as int,
                        day_bucket(s.last_checkin_date as int),
                        day_bucket(now as int),
                    )
                    &&& out.total_points == s.total_points + out.points_awarded
                    &&& out.total_checkins == s.total_checkins + 1
                    &&& out.longest_streak == (if out.new_streak > s.longest_streak {
                        out.new_streak as int
                    } else {
                        s.longest_streak as int
                    })
                    &&& final(self).user_stats@ == old(self).user_stats@.update(
                        stat_ix(old(self).user_stats@, user_identifier@),
                        (UserStat {
                            username: username,
                            pfp_url: pfp_url,
                            total_points: out.total_points,
                            current_streak: out.new_streak,
                            longest_streak: out.longest_streak,
                            last_checkin_date: now,
                            total_checkins: out.total_checkins,
                            updated_at: now,
                            ..s
                        }),
                    )
                    &&& final(self).next_stat_id == old(self).next_stat_id
                } else {
                    &&& out.new_streak == 1
                    &&& out.total_points == 12
                    &&& out.total_checkins == 1
                    &&& out.longest_streak == 1
                    &&& final(self).user_stats@ == old(self).user_stats@.push(
                        (UserStat {
                            stat_id: old(self).next_stat_id,
                            user_identifier: user_identifier,
                            username: username,
                            pfp_url: pfp_url,
                            total_points: 12,
                            current_streak: 1,
                            longest_streak: 1,
                            last_checkin_date: now,
                            total_checkins: 1,
                            created_at: now,
                            updated_at: now,
                        }),
                    )
                    &&& final(self).next_stat_id == old(self).next_stat_id + 1
                })
                &&& out.points_awarded == crate::streak::points_for(out.new_streak as int)
                &&& final(self).checkins@ == old(self).checkins@.push(
                    (CheckIn {
                        checkin_id: old(self).next_checkin_id,
                        user_identifier: user_identifier,
                        username: username,
                        pfp_url: pfp_url,
                        checkin_date: now,
                        points_earned: out.points_awarded,
                        streak_count: out.new_streak,
                    }),
                )
                &&& final(self).next_checkin_id == old(self).next_checkin_id + 1
                &&& has_checkin_on(final(self).checkins@, user_identifier@, day_bucket(now as int))
                &&& same_rounds(*old(self), *final(self))
                &&& same_extras(*old(self), *final(self))
                &&& logged(*old(self), *final(self), "daily_checkin"@, now)
            },
    {
        let today = crate::streak::day_start(now);
        if self.has_checkin_for_day(&user_identifier, today) {
            return Err(GameError::AlreadyCheckedIn);
        }
        let outcome: CheckInOutcome = match self.find_stat_index(&user_identifier) {
            Some(i) => {
                proof {
                    lemma_stat_at_ix(self.user_stats@, user_identifier@, i as int);
                }
                let last_day = crate::streak::day_start(self.user_stats[i].last_checkin_date);
                let (new_streak, points) = crate::streak::accrue(
                    self.user_stats[i].current_streak,
                    last_day,
                    today,
                );
                let new_total_points = self.user_stats[i].total_points + points;
                let new_longest = if new_streak > self.user_stats[i].longest_streak {
                    new_streak
                } else {
                    self.user_stats[i].longest_streak
                };
                let new_total_checkins = self.user_stats[i].total_checkins + 1;
                let st = &mut self.user_stats[i];
                st.username = username.clone();
                st.pfp_url = pfp_url.clone();
                st.current_streak = new_streak;
                st.total_points = new_total_points;
                st.longest_streak = new_longest;
                st.last_checkin_date = now;
                st.total_checkins = new_total_checkins;
                st.updated_at = now;
                CheckInOutcome {
                    new_streak,
                    points_awarded: points,
                    total_points: new_total_points,
                    total_checkins: new_total_checkins,
                    longest_streak: new_longest,
                }
            }
            None => {
                self.user_stats.push(UserStat {
                    stat_id: self.next_stat_id,
                    user_identifier: user_identifier.clone(),
                    username: username.clone(),
                    pfp_url: pfp_url.clone(),
                    total_points: 12,
                    current_streak: 1,
                    longest_streak: 1,
                    last_checkin_date: now,
                    total_checkins: 1,
                    created_at: now,
                    updated_at: now,
                });
                self.next_stat_id = self.next_stat_id + 1;
                CheckInOutcome {
                    new_streak: 1,
                    points_awarded: 12,
                    total_points: 12,
                    total_checkins: 1,
                    longest_streak: 1,
                }
            }
        };
        let checkin_id = self.next_checkin_id;
        self.checkins.push(CheckIn {
            checkin_id,
            user_identifier,
            username,
            pfp_url,
            checkin_date: now,
            points_earned: outcome.points_awarded,
            streak_count: outcome.new_streak,
        });
        self.next_checkin_id = checkin_id + 1;
        proof {
            let pre = *old(self);
            let u = user_identifier@;
            let today_i = day_bucket(now as int);
            let cs = self.checkins@;
            let row = cs.last();
            let stats = self.user_stats@;
            assert(cs.drop_last() =~= pre.checkins@);
            assert(row.user_identifier@ == u && day_bucket(row.checkin_date as int) == today_i);
            assert(has_checkin_on(cs, u, today_i));
            // Each stat row still counts exactly its user's check-in rows.
            assert forall|k: int|
                0 <= k < stats.len() implies (#[trigger] stats[k]).total_checkins
                == count_checkins_for(cs, stats[k].user_identifier@) by {
                let v = stats[k].user_identifier@;
                lemma_count_checkins_push(pre.checkins@, row, v);
                if has_stat(pre.user_stats@, u) {
                    let ix = stat_ix(pre.user_stats@, u);
                    if k != ix {
                        assert(stats[k] == pre.user_stats@[k]);
                        if k < ix {
                            assert(pre.user_stats@[k].user_identifier@
                                != pre.user_stats@[ix].user_identifier@);
                        } else {
                            assert(pre.user_stats@[ix].user_identifier@
                                != pre.user_stats@[k].user_identifier@);
                        }
                    }
                } else {
                    if k == stats.len() - 1 {
                        assert forall|m: int|
                            0 <= m < pre.checkins@.len() implies (
                            #[trigger] pre.checkins@[m]).user_identifier@ != u by {
                            assert(has_stat(
                                pre.user_stats@,
                                pre.checkins@[m].user_identifier@,
                            ));
                        }
                        lemma_count_checkins_zero(pre.checkins@, u);
                    } else {
                        assert(stats[k] == pre.user_stats@[k]);
                        assert(v != u);
                    }
                }
            }
            // At most one check-in row per user and calendar day.
            assert forall|a: int, b: int|
                0 <= a < b < cs.len() implies !((#[trigger] cs[a]).user_identifier@ == (
            #[trigger] cs[b]).user_identifier@ && day_bucket(cs[a].checkin_date as int)
                == day_bucket(cs[b].checkin_date as int)) by {
                if b == cs.len() - 1 {
                    assert(cs[a] == pre.checkins@[a]);
                } else {
                    assert(cs[a] == pre.checkins@[a] && cs[b] == pre.checkins@[b]);
                }
            }
            // Every check-in row's user still has a stat row.
            assert forall|m: int|
                0 <= m < cs.len() implies has_stat(stats, (#[trigger] cs[m]).user_identifier@) by {
                if m == cs.len() - 1 {
                    if has_stat(pre.user_stats@, u) {
                        let ix = stat_ix(pre.user_stats@, u);
                        assert(stats[ix].user_identifier@ == u);
                    } else {
                        assert(stats[stats.len() - 1].user_identifier@ == u);
                    }
                } else {
                    let w = cs[m].user_identifier@;
                    assert(cs[m] == pre.checkins@[m]);
                    assert(has_stat(pre.user_stats@, w));
                    let n = choose|n: int|
                        0 <= n < pre.user_stats@.len() && (
                        #[trigger] pre.user_stats@[n]).user_identifier@ == w;
                    assert(stats[n].user_identifier@ == w);
                }
            }
            // Stat users stay pairwise distinct.
            assert forall|p: int, q: int|
                0 <= p < q < stats.len() implies (#[trigger] stats[p]).user_identifier@ != (
            #[trigger] stats[q]).user_identifier@ by {
                if has_stat(pre.user_stats@, u) {
                    assert(stats[p].user_identifier@ == pre.user_stats@[p].user_identifier@);
                    assert(stats[q].user_identifier@ == pre.user_stats@[q].user_identifier@);
                } else {
                    if q == stats.len() - 1 {
                        assert(stats[p] == pre.user_stats@[p]);
                        assert(pre.user_stats@[p].user_identifier@ != u);
                    } else {
                        assert(stats[p] == pre.user_stats@[p]);
                        assert(stats[q] == pre.user_stats@[q]);
                    }
                }
            }
        }
        self.log_event("daily_checkin", "a daily check-in was recorded", now);
        Ok(outcome)
    }

    /// The guesses recorded for round `round_id`, in submission order.
    fn guesses_for_round(&self, round_id: u64) -> (r: Vec<Guess>)
        ensures
            r@ == round_guesses(self.guesses@, round_id),
    {
        let mut out: Vec<Guess> = Vec::new();
        let mut i: usize = 0;
        while i < self.guesses.len()
            invariant
                i <= self.guesses@.len(),
                out@ == round_guesses(self.guesses@.take(i as int), round_id),
            decreases self.guesses@.len() - i,
        {
            proof {
                assert(self.guesses@.take(i + 1) =~= self.guesses@.take(i as int).push(
                    self.guesses@[i as int],
                ));
                lemma_round_guesses_push(
                    self.guesses@.take(i as int),
                    self.guesses@[i as int],
                    round_id,
                );
            }
            if self.guesses[i].round_id == round_id {
                out.push(self.guesses[i].clone());
            }
            i = i + 1;
        }
        proof {
            assert(self.guesses@.take(self.guesses@.len() as int) =~= self.guesses@);
        }
        out
    }

    /// Appends the decimal text of an optional user identifier, `none` when
    /// absent.
    fn append_opt_fid(s: &mut String, o: Option<i64>)
        ensures
            final(s)@ == old(s)@ + opt_fid_text(o),
    {
        match o {
            Some(f) => {
                let digits = crate::text::i64_to_string(f);
                s.append(digits.as_str());
            }
            None => {
                s.append("none");
            }
        }
    }

    /// The details of a `round_finished` audit entry.
    fn render_round_finished_details(actual_tx_count: i64, out: RankOutcome) -> (r: String)
        ensures
            r@ == round_finished_details(actual_tx_count, out),
    {
        let mut s = "actual_tx_count=".to_owned();
        let actual_digits = crate::text::i64_to_string(actual_tx_count);
        s.append(actual_digits.as_str());
        s.append(", winner_fid=");
        Self::append_opt_fid(&mut s, out.winning_fid);
        s.append(", runner_up_fid=");
        Self::append_opt_fid(&mut s, out.second_place_winner_fid);
        s.append(", jackpot=");
        if out.is_exact_match {
            s.append("true");
        } else {
            s.append("false");
        }
        s
    }

    /// Finalizes the closed round `round_id` with the measured value: the
    /// `closed -> finished` transition, the terminal one. Fails `NotFound`
    /// exactly when no such round exists and `InvalidState` exactly when the
    /// round was not explicitly closed first (still open, or already
    /// finished); a failure writes nothing. On success the round's outcome
    /// fields are written from the winner ranking over exactly this round's
    /// guesses — winner and runner-up by distance to `actual_tx_count`,
    /// earlier submission breaking ties, both absent when too few guesses
    /// exist (no error) — its status flips to finished, the ranking itself is
    /// returned, and one `round_finished` entry is logged. No other record
    /// changes.
    pub fn update_round_result(
        &mut self,
        round_id: u64,
        actual_tx_count: i64,
        block_hash: String,
        now: i64,
    ) -> (r: Result<RankOutcome, GameError>)
        requires
            old(self).wf(),
            0 <= now,
        ensures
            final(self).wf(),
            r is Err <==> finalize_decision(old(self).rounds@, round_id) is Some,
            r matches Err(e) ==> finalize_decision(old(self).rounds@, round_id) == Some(e)
                && same_state(*old(self), *final(self)),
            r matches Ok(out) ==> {
                &&& crate::ranking::rank_outcome_ok(
                    round_guesses(old(self).guesses@, round_id),
                    actual_tx_count as int,
                    out,
                )
                &&& final(self).rounds@ == old(self).rounds@.update(
                    round_ix(old(self).rounds@, round_id),
                    (Round {
                        status: RoundStatus::Finished,
                        actual_tx_count: Some(actual_tx_count),
                        block_hash: Some(block_hash),
                        winning_fid: out.winning_fid,
                        second_place_winner_fid: out.second_place_winner_fid,
                        ..round_at(old(self).rounds@, round_id)
                    }),
                )
                &&& final(self).next_round_id == old(self).next_round_id
                &&& same_guesses(*old(self), *final(self))
                &&& same_users(*old(self), *final(self))
                &&& same_extras(*old(self), *final(self))
                &&& logged(*old(self), *final(self), "round_finished"@, now)
                &&& final(self).logs@.last().details@ == round_finished_details(
                    actual_tx_count,
                    out,
                )
            },
    {
        let ix = match self.find_round_index(round_id) {
            None => {
                return Err(GameError::NotFound);
            }
            Some(i) => i,
        };
        proof {
            lemma_round_at_ix(self.rounds@, round_id, ix as int);
        }
        if !matches!(self.rounds[ix].status, RoundStatus::Closed) {
            return Err(GameError::InvalidState);
        }
        let round_guess_vec = self.guesses_for_round(round_id);
        let out = crate::ranking::rank_guesses(&round_guess_vec, actual_tx_count);
        let r = &mut self.rounds[ix];
        r.status = RoundStatus::Finished;
        r.actual_tx_count = Some(actual_tx_count);
        r.block_hash = Some(block_hash);
        r.winning_fid = out.winning_fid;
        r.second_place_winner_fid = out.second_place_winner_fid;
        let details = Self::render_round_finished_details(actual_tx_count, out);
        self.log_event("round_finished", details.as_str(), now);
        Ok(out)
    }

    /// Closes the round `round_id` ahead of (or after) its end time: the
    /// manual `open -> closed` transition. Fails `NotFound` exactly when no
    /// such round exists and `InvalidState` exactly when the round is not
    /// open; a failure writes nothing. On success only that round's status
    /// changes, and one `round_closed` entry is logged.
    pub fn end_round_manually(&mut self, round_id: u64, now: i64) -> (r: Result<(), GameError>)
        requires
            old(self).wf(),
            0 <= now,
        ensures
            final(self).wf(),
            r is Err <==> close_round_decision(old(self).rounds@, round_id) is Some,
            r matches Err(e) ==> close_round_decision(old(self).rounds@, round_id) == Some(e)
                && same_state(*old(self), *final(self)),
            r is Ok ==> {
                &&& final(self).rounds@ == old(self).rounds@.update(
                    round_ix(old(self).rounds@, round_id),
                    (Round {
                        status: RoundStatus::Closed,
                        ..round_at(old(self).rounds@, round_id)
                    }),
                )
                &&& final(self).next_round_id == old(self).next_round_id
                &&& same_guesses(*old(self), *final(self))
                &&& same_users(*old(self), *final(self))
                &&& same_extras(*old(self), *final(self))
                &&& logged(*old(self), *final(self), "round_closed"@, now)
            },
    {
        let ix = match self.find_round_index(round_id) {
            None => {
                return Err(GameError::NotFound);
            }
            Some(i) => i,
        };
        proof {
            lemma_round_at_ix(self.rounds@, round_id, ix as int);
        }
        if !matches!(self.rounds[ix].status, RoundStatus::Open) {
            return Err(GameError::InvalidState);
        }
        let r = &mut self.rounds[ix];
        r.status = RoundStatus::Closed;
        self.log_event("round_closed", "a round was closed manually", now);
        Ok(())
    }
}

/// Under unique round identifiers, the round found at index `i` is the round
/// the lookup functions denote.
pub proof fn lemma_round_at_ix(rounds: Seq<Round>, round_id: u64, i: int)
    requires
        0 <= i < rounds.len(),
        rounds[i].round_id == round_id,
        forall|p: int, q: int|
            0 <= p < q < rounds.len() ==> (#[trigger] rounds[p]).round_id != (
            #[trigger] rounds[q]).round_id,
    ensures
        has_round(rounds, round_id),
        round_ix(rounds, round_id) == i,
        round_at(rounds, round_id) == rounds[i],
{
    assert(has_round(rounds, round_id));
    let j = round_ix(rounds, round_id);
    assert(0 <= j < rounds.len() && rounds[j].round_id == round_id);
    if j < i {
        assert(rounds[j].round_id != rounds[i].round_id);
    } else if i < j {
        assert(rounds[i].round_id != rounds[j].round_id);
    }
}

} // verus!
