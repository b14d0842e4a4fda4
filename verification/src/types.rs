//! The record types of the game and its error kinds.

use vstd::prelude::*;

verus! {

/// Lifecycle state of a round. A round moves `Open` -> `Closed` -> `Finished`;
/// no transition skips a state and none moves backward.
#[derive(Clone, Copy, PartialEq, Eq, Structural, Debug)]
pub enum RoundStatus {
    Open,
    Closed,
    Finished,
}

/// One timed prediction period.
#[derive(Debug)]
pub struct Round {
    pub round_id: u64,
    pub round_number: i64,
    pub start_time: i64,
    pub end_time: i64,
    pub duration_minutes: i64,
    pub prize: String,
    pub status: RoundStatus,
    pub block_number: Option<i64>,
    pub actual_tx_count: Option<i64>,
    pub winning_fid: Option<i64>,
    pub second_place_winner_fid: Option<i64>,
    pub block_hash: Option<String>,
    pub created_at: i64,
}

/// One user's prediction submitted against a round. At most one guess per
/// (`round_id`, `fid`) pair is ever stored.
#[derive(Debug)]
pub struct Guess {
    pub guess_id: u64,
    pub round_id: u64,
    pub fid: i64,
    pub username: String,
    pub guess: i64,
    pub pfp_url: Option<String>,
    pub submitted_at: i64,
}

impl Clone for Round {
    /// A clone equals the original record.
    fn clone(&self) -> (r: Self)
        ensures
            r == *self,
    {
        Round {
            round_id: self.round_id,
            round_number: self.round_number,
            start_time: self.start_time,
            end_time: self.end_time,
            duration_minutes: self.duration_minutes,
            prize: self.prize.clone(),
            status: self.status,
            block_number: self.block_number,
            actual_tx_count: self.actual_tx_count,
            winning_fid: self.winning_fid,
            second_place_winner_fid: self.second_place_winner_fid,
            block_hash: match &self.block_hash {
                Some(h) => Some(h.clone()),
                None => None,
            },
            created_at: self.created_at,
        }
    }
}

impl Clone for Guess {
    /// A clone equals the original record.
    fn clone(&self) -> (r: Self)
        ensures
            r == *self,
    {
        Guess {
            guess_id: self.guess_id,
            round_id: self.round_id,
            fid: self.fid,
            username: self.username.clone(),
            guess: self.guess,
            pfp_url: match &self.pfp_url {
                Some(s) => Some(s.clone()),
                None => None,
            },
            submitted_at: self.submitted_at,
        }
    }
}

/// One append-only audit entry. The game writes entries and never reads them
/// back for logic.
#[derive(Debug)]
pub struct LogEvent {
    pub log_id: u64,
    pub event_type: String,
    pub details: String,
    pub timestamp: i64,
}

/// One chat message; plain record storage with no computation.
#[derive(Debug)]
pub struct ChatMessage {
    pub chat_id: u64,
    pub round_id: String,
    pub address: String,
    pub username: String,
    pub message: String,
    pub pfp_url: String,
    pub timestamp: i64,
    pub msg_type: String,
}

/// The singleton prize configuration record, replaced on every save.
#[derive(Debug)]
pub struct PrizeConfig {
    pub config_id: u64,
    pub jackpot_amount: i64,
    pub first_place_amount: i64,
    pub second_place_amount: i64,
    pub currency_type: String,
    pub token_contract_address: String,
    pub updated_at: i64,
}

/// One immutable record per successful daily check-in. At most one per
/// (`user_identifier`, day-bucket) pair is ever stored.
#[derive(Debug)]
pub struct CheckIn {
    pub checkin_id: u64,
    pub user_identifier: String,
    pub username: String,
    pub pfp_url: String,
    pub checkin_date: i64,
    pub points_earned: i64,
    pub streak_count: i64,
}

/// Running per-user totals, one row per user.
#[derive(Debug)]
pub struct UserStat {
    pub stat_id: u64,
    pub user_identifier: String,
    pub username: String,
    pub pfp_url: String,
    pub total_points: i64,
    pub current_streak: i64,
    pub longest_streak: i64,
    pub last_checkin_date: i64,
    pub total_checkins: i64,
    pub created_at: i64,
    pub updated_at: i64,
}

/// The typed failures of the game's operations. Every operation reports
/// exactly which of these it returns for which inputs.
#[derive(Clone, Copy, PartialEq, Eq, Structural, Debug)]
pub enum GameError {
    /// Malformed input, such as a non-positive duration or prize amount.
    InvalidArgument,
    /// The referenced round does not exist.
    NotFound,
    /// The operation is not valid for the round's current lifecycle state.
    InvalidState,
    /// A guess arrived before the round's start time.
    NotStarted,
    /// A guess arrived at or after the round's end time.
    WindowClosed,
    /// The user already has a guess recorded for this round.
    DuplicateSubmission,
    /// The user already has a check-in recorded for this calendar day.
    AlreadyCheckedIn,
    /// The underlying persistence rejected a write. The in-memory store of
    /// this crate never produces it; callers that persist records elsewhere
    /// map their storage errors to it.
    StorageFailure,
}

/// What a successful check-in computed and wrote.
#[derive(Clone, Copy, PartialEq, Eq, Structural, Debug)]
pub struct CheckInOutcome {
    pub new_streak: i64,
    pub points_awarded: i64,
    pub total_points: i64,
    pub total_checkins: i64,
    pub longest_streak: i64,
}

/// Winner and runner-up of a round as computed from its guesses.
#[derive(Clone, Copy, PartialEq, Eq, Structural, Debug)]
pub struct RankOutcome {
    pub winning_fid: Option<i64>,
    pub second_place_winner_fid: Option<i64>,
    pub is_exact_match: bool,
}

} // verus!
