use blockguess::state::GameState;
use blockguess::streak::{accrue, day_start, get_day_start};
use blockguess::ranking::rank_guesses;
use blockguess::text::{i64_to_string, u64_to_string};
use blockguess::types::{GameError, Guess, RoundStatus};

const DAY: i64 = 86400;

fn guess(fid: i64, value: i64, submitted_at: i64) -> Guess {
    Guess {
        guess_id: 0,
        round_id: 1,
        fid,
        username: format!("user{}", fid),
        guess: value,
        pfp_url: None,
        submitted_at,
    }
}

#[test]
fn create_round_sets_times() {
    let mut s = GameState::new();
    let id = s.create_round(7, 10, "prize".to_string(), Some(900000), 1000).unwrap();
    assert_eq!(id, 1);
    let r = &s.rounds[0];
    assert_eq!(r.start_time, 1000);
    assert_eq!(r.end_time, 1000 + 10 * 60);
    assert_eq!(r.duration_minutes, 10);
    assert_eq!(r.created_at, 1000);
    assert_eq!(r.status, RoundStatus::Open);
    assert_eq!(r.block_number, Some(900000));
    assert_eq!(r.actual_tx_count, None);
    assert_eq!(r.winning_fid, None);
    assert_eq!(r.second_place_winner_fid, None);
    assert_eq!(r.block_hash, None);
    assert_eq!(s.logs.len(), 1);
    assert_eq!(s.logs[0].event_type, "round_created");
}

#[test]
fn create_round_rejects_nonpositive_duration() {
    let mut s = GameState::new();
    assert_eq!(s.create_round(1, 0, "p".to_string(), None, 1000), Err(GameError::InvalidArgument));
    assert_eq!(s.create_round(1, -5, "p".to_string(), None, 1000), Err(GameError::InvalidArgument));
    assert_eq!(s.rounds.len(), 0);
    assert_eq!(s.logs.len(), 0);
}

#[test]
fn round_times_survive_every_transition() {
    let mut s = GameState::new();
    s.create_round(1, 10, "p".to_string(), None, 1000).unwrap();
    s.submit_guess(1, 5, "a".to_string(), 3, None, 1000).unwrap();
    s.end_round_manually(1, 1200).unwrap();
    s.update_round_result(1, 3, "h".to_string(), 1700).unwrap();
    let r = &s.rounds[0];
    assert_eq!(r.status, RoundStatus::Finished);
    assert_eq!(r.start_time, 1000);
    assert_eq!(r.end_time, 1600);
    assert_eq!(r.duration_minutes, 10);
}

#[test]
fn duplicate_guess_rejected_regardless_of_value() {
    let mut s = GameState::new();
    s.create_round(1, 10, "p".to_string(), None, 1000).unwrap();
    s.submit_guess(1, 42, "alice".to_string(), 5, None, 1100).unwrap();
    let second = s.submit_guess(1, 42, "alice".to_string(), 999, None, 1200);
    assert_eq!(second, Err(GameError::DuplicateSubmission));
    assert_eq!(s.guesses.len(), 1);
    assert_eq!(s.guesses[0].guess, 5);
}

#[test]
fn guess_window_boundaries() {
    let mut s = GameState::new();
    s.create_round(1, 10, "p".to_string(), None, 1000).unwrap();
    // accepted exactly at the start time
    assert!(s.submit_guess(1, 1, "a".to_string(), 5, None, 1000).is_ok());
    // rejected exactly at the end time, and after it
    assert_eq!(
        s.submit_guess(1, 2, "b".to_string(), 5, None, 1600),
        Err(GameError::WindowClosed)
    );
    assert_eq!(
        s.submit_guess(1, 2, "b".to_string(), 5, None, 99999),
        Err(GameError::WindowClosed)
    );
    // rejected before the start time
    assert_eq!(
        s.submit_guess(1, 3, "c".to_string(), 5, None, 999),
        Err(GameError::NotStarted)
    );
}

#[test]
fn guess_on_missing_or_closed_round_rejected() {
    let mut s = GameState::new();
    s.create_round(1, 10, "p".to_string(), None, 1000).unwrap();
    assert_eq!(
        s.submit_guess(9, 1, "a".to_string(), 5, None, 1100),
        Err(GameError::NotFound)
    );
    s.end_round_manually(1, 1100).unwrap();
    assert_eq!(
        s.submit_guess(1, 1, "a".to_string(), 5, None, 1100),
        Err(GameError::InvalidState)
    );
    assert_eq!(s.guesses.len(), 0);
}

#[test]
fn ranking_breaks_distance_tie_by_submission_time() {
    // guesses A=10, B=12, C=8 against 9 rank by distance [C:1, A:1, B:3];
    // A and C tie at distance 1 and the earlier submission wins.
    let gs = vec![guess(1, 10, 100), guess(2, 12, 110), guess(3, 8, 120)];
    let out = rank_guesses(&gs, 9);
    assert_eq!(out.winning_fid, Some(1)); // A submitted before C
    assert_eq!(out.second_place_winner_fid, Some(3));
    assert!(!out.is_exact_match);

    let gs = vec![guess(1, 10, 120), guess(2, 12, 110), guess(3, 8, 100)];
    let out = rank_guesses(&gs, 9);
    assert_eq!(out.winning_fid, Some(3)); // now C submitted before A
    assert_eq!(out.second_place_winner_fid, Some(1));
}

#[test]
fn ranking_full_tie_keeps_insertion_order() {
    // same distance and same submission instant: the earlier-stored guess wins
    let gs = vec![guess(1, 8, 100), guess(2, 10, 100), guess(3, 9, 200)];
    let out = rank_guesses(&gs, 9);
    assert_eq!(out.winning_fid, Some(3)); // exact match ranks first
    assert!(out.is_exact_match);
    assert_eq!(out.second_place_winner_fid, Some(1)); // tie with fid 2, stored first
}

#[test]
fn ranking_through_finalization() {
    let mut s = GameState::new();
    s.create_round(1, 10, "p".to_string(), None, 0).unwrap();
    s.submit_guess(1, 1, "a".to_string(), 10, None, 100).unwrap();
    s.submit_guess(1, 2, "b".to_string(), 12, None, 110).unwrap();
    s.submit_guess(1, 3, "c".to_string(), 8, None, 120).unwrap();
    s.end_round_manually(1, 200).unwrap();
    let out = s.update_round_result(1, 9, "hash".to_string(), 300).unwrap();
    assert_eq!(out.winning_fid, Some(1));
    assert_eq!(out.second_place_winner_fid, Some(3));
    assert!(!out.is_exact_match);
    let r = &s.rounds[0];
    assert_eq!(r.status, RoundStatus::Finished);
    assert_eq!(r.winning_fid, Some(1));
    assert_eq!(r.second_place_winner_fid, Some(3));
    assert_eq!(r.actual_tx_count, Some(9));
    assert_eq!(r.block_hash, Some("hash".to_string()));
}

#[test]
fn ranking_with_zero_guesses_is_no_error() {
    let gs: Vec<Guess> = Vec::new();
    let out = rank_guesses(&gs, 9);
    assert_eq!(out.winning_fid, None);
    assert_eq!(out.second_place_winner_fid, None);
    assert!(!out.is_exact_match);

    let mut s = GameState::new();
    s.create_round(1, 10, "p".to_string(), None, 0).unwrap();
    s.end_round_manually(1, 100).unwrap();
    let out = s.update_round_result(1, 9, "hash".to_string(), 200).unwrap();
    assert_eq!(out.winning_fid, None);
    assert_eq!(out.second_place_winner_fid, None);
    assert!(!out.is_exact_match);
    assert_eq!(s.rounds[0].status, RoundStatus::Finished);
    assert_eq!(s.rounds[0].winning_fid, None);
}

#[test]
fn ranking_single_guess_has_no_runner_up() {
    let gs = vec![guess(5, 20, 10)];
    let out = rank_guesses(&gs, 25);
    assert_eq!(out.winning_fid, Some(5));
    assert_eq!(out.second_place_winner_fid, None);
    assert!(!out.is_exact_match);
}

#[test]
fn exact_match_sets_jackpot_flag() {
    let gs = vec![guess(1, 30, 100), guess(2, 9, 110)];
    let out = rank_guesses(&gs, 9);
    assert_eq!(out.winning_fid, Some(2));
    assert!(out.is_exact_match);

    // no exact guess: no jackpot
    let gs = vec![guess(1, 30, 100), guess(2, 10, 110)];
    let out = rank_guesses(&gs, 9);
    assert_eq!(out.winning_fid, Some(2));
    assert!(!out.is_exact_match);
}

#[test]
fn consecutive_checkins_extend_streak() {
    let mut s = GameState::new();
    let mut expected_points = Vec::new();
    for day in 0..4 {
        let out = s
            .daily_checkin("u1".to_string(), "u".to_string(), "p".to_string(), 100 * DAY + day * DAY)
            .unwrap();
        assert_eq!(out.new_streak, day + 1);
        assert_eq!(out.points_awarded, 10 + 2 * (day + 1));
        expected_points.push(out.points_awarded);
    }
    // a user with streak 3 checking in the next day reaches streak 4 for 18 points
    assert_eq!(*expected_points.last().unwrap(), 18);
    let stat = &s.user_stats[0];
    assert_eq!(stat.current_streak, 4);
    assert_eq!(stat.longest_streak, 4);
    assert_eq!(stat.total_checkins, 4);
    assert_eq!(stat.total_points, 12 + 14 + 16 + 18);
    assert_eq!(s.checkins.len(), 4);
    assert_eq!(s.checkins[3].streak_count, 4);
    assert_eq!(s.checkins[3].points_earned, 18);
}

#[test]
fn gap_resets_streak() {
    let mut s = GameState::new();
    s.daily_checkin("u1".to_string(), "u".to_string(), "p".to_string(), 100 * DAY).unwrap();
    s.daily_checkin("u1".to_string(), "u".to_string(), "p".to_string(), 101 * DAY).unwrap();
    // skip day 102 entirely
    let out = s
        .daily_checkin("u1".to_string(), "u".to_string(), "p".to_string(), 103 * DAY)
        .unwrap();
    assert_eq!(out.new_streak, 1);
    assert_eq!(out.points_awarded, 12);
    let stat = &s.user_stats[0];
    assert_eq!(stat.current_streak, 1);
    assert_eq!(stat.longest_streak, 2);
    assert_eq!(stat.total_checkins, 3);
}

#[test]
fn first_checkin_awards_twelve_points() {
    let mut s = GameState::new();
    let out = s
        .daily_checkin("u1".to_string(), "u".to_string(), "p".to_string(), 100 * DAY + 777)
        .unwrap();
    assert_eq!(out.new_streak, 1);
    assert_eq!(out.points_awarded, 12);
    assert_eq!(out.total_points, 12);
    assert_eq!(out.total_checkins, 1);
    assert_eq!(out.longest_streak, 1);
    assert_eq!(s.user_stats.len(), 1);
    assert_eq!(s.checkins.len(), 1);
}

#[test]
fn second_checkin_same_day_rejected_and_writes_nothing() {
    let mut s = GameState::new();
    s.daily_checkin("u1".to_string(), "u".to_string(), "p".to_string(), 100 * DAY + 10).unwrap();
    let points = s.user_stats[0].total_points;
    let streak = s.user_stats[0].current_streak;
    let checkin_count = s.user_stats[0].total_checkins;
    let rows = s.checkins.len();
    let logs = s.logs.len();
    // later the same calendar day
    let again = s.daily_checkin("u1".to_string(), "u".to_string(), "p".to_string(), 100 * DAY + 999);
    assert_eq!(again, Err(GameError::AlreadyCheckedIn));
    assert_eq!(s.user_stats[0].total_points, points);
    assert_eq!(s.user_stats[0].current_streak, streak);
    assert_eq!(s.user_stats[0].total_checkins, checkin_count);
    assert_eq!(s.checkins.len(), rows);
    assert_eq!(s.logs.len(), logs);
}

#[test]
fn checkins_of_different_users_are_independent() {
    let mut s = GameState::new();
    s.daily_checkin("u1".to_string(), "u".to_string(), "p".to_string(), 100 * DAY).unwrap();
    let out = s.daily_checkin("u2".to_string(), "v".to_string(), "p".to_string(), 100 * DAY).unwrap();
    assert_eq!(out.new_streak, 1);
    assert_eq!(s.user_stats.len(), 2);
    assert_eq!(s.checkins.len(), 2);
}

#[test]
fn auto_close_is_idempotent() {
    let mut s = GameState::new();
    s.create_round(1, 1, "p".to_string(), None, 0).unwrap(); // ends at 60
    s.create_round(2, 100, "p".to_string(), None, 0).unwrap(); // ends at 6000
    let first = s.tick_rounds(60);
    assert_eq!(first, 1);
    assert_eq!(s.rounds[0].status, RoundStatus::Closed);
    assert_eq!(s.rounds[1].status, RoundStatus::Open);
    let logs = s.logs.len();
    let second = s.tick_rounds(60);
    assert_eq!(second, 0);
    assert_eq!(s.logs.len(), logs); // zero writes the second time
    assert_eq!(s.rounds[0].status, RoundStatus::Closed);
    assert_eq!(s.rounds[1].status, RoundStatus::Open);
}

#[test]
fn auto_close_goes_by_status_not_time() {
    let mut s = GameState::new();
    s.create_round(1, 1, "p".to_string(), None, 0).unwrap(); // ends at 60
    s.end_round_manually(1, 10).unwrap(); // closed before its end time
    let logs = s.logs.len();
    // past the end time, but the round is already closed: nothing to do
    assert_eq!(s.tick_rounds(100), 0);
    assert_eq!(s.logs.len(), logs);
    assert_eq!(s.rounds[0].status, RoundStatus::Closed);
}

#[test]
fn finalize_requires_closed_round() {
    let mut s = GameState::new();
    s.create_round(1, 10, "p".to_string(), None, 0).unwrap();
    // still open: rejected
    assert_eq!(
        s.update_round_result(1, 9, "h".to_string(), 100),
        Err(GameError::InvalidState)
    );
    assert_eq!(s.rounds[0].status, RoundStatus::Open);
    // unknown round: rejected
    assert_eq!(
        s.update_round_result(9, 9, "h".to_string(), 100),
        Err(GameError::NotFound)
    );
    s.end_round_manually(1, 100).unwrap();
    s.update_round_result(1, 9, "h".to_string(), 200).unwrap();
    // already finished: rejected
    assert_eq!(
        s.update_round_result(1, 9, "h".to_string(), 300),
        Err(GameError::InvalidState)
    );
}

#[test]
fn end_round_manually_transitions_once() {
    let mut s = GameState::new();
    s.create_round(1, 10, "p".to_string(), None, 0).unwrap();
    assert_eq!(s.end_round_manually(9, 10), Err(GameError::NotFound));
    s.end_round_manually(1, 10).unwrap();
    assert_eq!(s.rounds[0].status, RoundStatus::Closed);
    assert_eq!(s.end_round_manually(1, 20), Err(GameError::InvalidState));
}

#[test]
fn active_round_is_newest_unfinished() {
    let mut s = GameState::new();
    assert_eq!(s.get_active_round(10), None);
    s.create_round(1, 10, "p".to_string(), None, 0).unwrap();
    s.create_round(2, 10, "p".to_string(), None, 0).unwrap();
    assert_eq!(s.get_active_round(10), Some(2));
    s.end_round_manually(2, 20).unwrap();
    // a closed round is still active (awaiting its result)
    assert_eq!(s.get_active_round(30), Some(2));
    s.update_round_result(2, 9, "h".to_string(), 40).unwrap();
    assert_eq!(s.get_active_round(50), Some(1));
    s.end_round_manually(1, 60).unwrap();
    s.update_round_result(1, 9, "h".to_string(), 70).unwrap();
    assert_eq!(s.get_active_round(80), None);
}

#[test]
fn find_round_looks_up_by_id() {
    let mut s = GameState::new();
    s.create_round(41, 10, "p".to_string(), None, 0).unwrap();
    s.create_round(42, 10, "q".to_string(), None, 5).unwrap();
    let r = s.find_round(2).unwrap();
    assert_eq!(r.round_number, 42);
    assert_eq!(r.prize, "q");
    assert!(s.find_round(3).is_none());
}

#[test]
fn prize_config_is_replaced_on_save() {
    let mut s = GameState::new();
    assert!(s.get_prize_config().is_none());
    s.save_prize_config(100, 50, 25, "USDC".to_string(), "0xabc".to_string(), 1000).unwrap();
    let cfg = s.get_prize_config().as_ref().unwrap();
    assert_eq!(cfg.config_id, 1);
    assert_eq!(cfg.jackpot_amount, 100);
    assert_eq!(cfg.first_place_amount, 50);
    assert_eq!(cfg.second_place_amount, 25);
    assert_eq!(cfg.currency_type, "USDC");
    assert_eq!(cfg.updated_at, 1000);
    s.save_prize_config(200, 90, 45, "ETH".to_string(), "0xdef".to_string(), 2000).unwrap();
    let cfg = s.get_prize_config().as_ref().unwrap();
    assert_eq!(cfg.jackpot_amount, 200);
    assert_eq!(cfg.currency_type, "ETH");
    assert_eq!(cfg.updated_at, 2000);
}

#[test]
fn prize_config_rejects_bad_input() {
    let mut s = GameState::new();
    assert_eq!(
        s.save_prize_config(0, 50, 25, "USDC".to_string(), "0x".to_string(), 1000),
        Err(GameError::InvalidArgument)
    );
    assert_eq!(
        s.save_prize_config(100, -1, 25, "USDC".to_string(), "0x".to_string(), 1000),
        Err(GameError::InvalidArgument)
    );
    assert_eq!(
        s.save_prize_config(100, 50, 25, "".to_string(), "0x".to_string(), 1000),
        Err(GameError::InvalidArgument)
    );
    // a currency label of nothing but whitespace is as empty as none at all
    assert_eq!(
        s.save_prize_config(100, 50, 25, " ".to_string(), "0x".to_string(), 1000),
        Err(GameError::InvalidArgument)
    );
    assert_eq!(
        s.save_prize_config(100, 50, 25, "\t \n".to_string(), "0x".to_string(), 1000),
        Err(GameError::InvalidArgument)
    );
    assert_eq!(
        s.save_prize_config(100, 50, 25, "\u{a0}\u{3000}".to_string(), "0x".to_string(), 1000),
        Err(GameError::InvalidArgument)
    );
    assert!(s.get_prize_config().is_none());
    // whitespace around a real label is accepted
    assert!(s.save_prize_config(100, 50, 25, " USDC ".to_string(), "0x".to_string(), 1000).is_ok());
}

#[test]
fn chat_messages_are_stored_in_order() {
    let mut s = GameState::new();
    let id0 = s.send_chat_message(
        "global".to_string(),
        "0x1".to_string(),
        "alice".to_string(),
        "hello".to_string(),
        "p".to_string(),
        "chat".to_string(),
        1000,
    );
    let id1 = s.send_chat_message(
        "1".to_string(),
        "0x2".to_string(),
        "bob".to_string(),
        "hi".to_string(),
        "p".to_string(),
        "guess".to_string(),
        1001,
    );
    assert_eq!(id0, 0);
    assert_eq!(id1, 1);
    assert_eq!(s.chat_messages.len(), 2);
    assert_eq!(s.chat_messages[0].message, "hello");
    assert_eq!(s.chat_messages[1].username, "bob");
    assert_eq!(s.chat_messages[1].timestamp, 1001);
}

#[test]
fn round_finished_entry_records_the_outcome() {
    let mut s = GameState::new();
    s.create_round(1, 10, "p".to_string(), None, 0).unwrap();
    s.submit_guess(1, 1, "a".to_string(), 10, None, 100).unwrap();
    s.submit_guess(1, 3, "c".to_string(), 8, None, 120).unwrap();
    s.end_round_manually(1, 200).unwrap();
    s.update_round_result(1, 9, "hash".to_string(), 300).unwrap();
    let entry = s.logs.last().unwrap();
    assert_eq!(entry.event_type, "round_finished");
    assert_eq!(entry.details, "actual_tx_count=9, winner_fid=1, runner_up_fid=3, jackpot=false");

    // no guesses: no winner to record; negative measured values render signed
    let mut s = GameState::new();
    s.create_round(1, 10, "p".to_string(), None, 0).unwrap();
    s.end_round_manually(1, 200).unwrap();
    s.update_round_result(1, -7, "hash".to_string(), 300).unwrap();
    let entry = s.logs.last().unwrap();
    assert_eq!(
        entry.details,
        "actual_tx_count=-7, winner_fid=none, runner_up_fid=none, jackpot=false"
    );

    // a jackpot by a user with a negative identifier
    let mut s = GameState::new();
    s.create_round(1, 10, "p".to_string(), None, 0).unwrap();
    s.submit_guess(1, -5, "a".to_string(), 42, None, 100).unwrap();
    s.end_round_manually(1, 200).unwrap();
    s.update_round_result(1, 42, "hash".to_string(), 300).unwrap();
    let entry = s.logs.last().unwrap();
    assert_eq!(
        entry.details,
        "actual_tx_count=42, winner_fid=-5, runner_up_fid=none, jackpot=true"
    );
}

#[test]
fn decimal_rendering_is_exact() {
    assert_eq!(u64_to_string(0), "0");
    assert_eq!(u64_to_string(7), "7");
    assert_eq!(u64_to_string(1203), "1203");
    assert_eq!(u64_to_string(u64::MAX), "18446744073709551615");
    assert_eq!(i64_to_string(0), "0");
    assert_eq!(i64_to_string(9001), "9001");
    assert_eq!(i64_to_string(-1), "-1");
    assert_eq!(i64_to_string(-1203), "-1203");
    assert_eq!(i64_to_string(i64::MIN), "-9223372036854775808");
    assert_eq!(i64_to_string(i64::MAX), "9223372036854775807");
}

#[test]
fn day_start_floors_to_calendar_day() {
    assert_eq!(day_start(0), 0);
    assert_eq!(day_start(86399), 0);
    assert_eq!(day_start(86400), 86400);
    assert_eq!(day_start(100 * DAY + 777), 100 * DAY);
    assert_eq!(get_day_start(100 * DAY + 777), 100 * DAY);
    assert_eq!(get_day_start(12345), 0);
}

#[test]
fn accrue_follows_the_points_formula() {
    let today = 100 * DAY;
    // consecutive day: streak grows, points are 10 + 2 * streak
    assert_eq!(accrue(3, today - DAY, today), (4, 18));
    // gap: reset to one for 12 points
    assert_eq!(accrue(3, today - 2 * DAY, today), (1, 12));
    assert_eq!(accrue(7, 0, today), (1, 12));
    // a clock that went backward keeps the streak
    assert_eq!(accrue(3, today, today), (3, 16));
}

#[test]
fn well_formedness_is_decidable() {
    let mut s = GameState::new();
    assert!(s.is_well_formed());
    s.create_round(1, 10, "p".to_string(), None, 1000).unwrap();
    s.submit_guess(1, 1, "a".to_string(), 5, None, 1100).unwrap();
    s.daily_checkin("u1".to_string(), "u".to_string(), "p".to_string(), 100 * DAY).unwrap();
    s.daily_checkin("u2".to_string(), "v".to_string(), "p".to_string(), 100 * DAY).unwrap();
    assert!(s.is_well_formed());
    // a round whose end time disagrees with its duration is rejected
    let mut broken = GameState::new();
    broken.create_round(1, 10, "p".to_string(), None, 1000).unwrap();
    broken.rounds[0].end_time = 1601;
    assert!(!broken.is_well_formed());
    // a second guess for the same (round, user) pair is rejected
    let mut broken = GameState::new();
    broken.create_round(1, 10, "p".to_string(), None, 1000).unwrap();
    broken.submit_guess(1, 1, "a".to_string(), 5, None, 1100).unwrap();
    let copy = broken.guesses[0].clone();
    broken.guesses.push(copy);
    assert!(!broken.is_well_formed());
    // a stat total that disagrees with the check-in rows is rejected
    let mut broken = GameState::new();
    broken.daily_checkin("u1".to_string(), "u".to_string(), "p".to_string(), 100 * DAY).unwrap();
    broken.user_stats[0].total_checkins = 2;
    assert!(!broken.is_well_formed());
}

#[test]
fn every_operation_logs_once() {
    let mut s = GameState::new();
    s.create_round(1, 10, "p".to_string(), None, 0).unwrap();
    assert_eq!(s.logs.len(), 1);
    s.submit_guess(1, 1, "a".to_string(), 5, None, 10).unwrap();
    assert_eq!(s.logs.len(), 2);
    assert_eq!(s.logs[1].event_type, "guess_submitted");
    s.end_round_manually(1, 20).unwrap();
    assert_eq!(s.logs[2].event_type, "round_closed");
    s.update_round_result(1, 5, "h".to_string(), 30).unwrap();
    assert_eq!(s.logs[3].event_type, "round_finished");
    s.daily_checkin("u".to_string(), "u".to_string(), "p".to_string(), 40).unwrap();
    assert_eq!(s.logs[4].event_type, "daily_checkin");
    assert_eq!(s.get_active_round(50), None);
    assert_eq!(s.logs[5].event_type, "active_round_checked");
    assert_eq!(s.logs.len(), 6);
}
