//! A round-based prediction game with daily check-ins.
//!
//! Administrators open numbered rounds tied to a future measurement; players
//! submit integer guesses while a round is open; once the measurement is
//! known the round is finalized and a winner and runner-up are computed by
//! closeness of guess, earliest submission breaking ties. A parallel
//! subsystem awards points for daily check-ins and maintains a
//! consecutive-day streak per user.
//!
//! All game records live in a [`state::GameState`], an in-memory store whose
//! operations are verified: each operation's contract states exactly which
//! inputs succeed, which error every rejected input produces, and how the
//! stored records change.

pub mod types;
pub mod text;
pub mod streak;
pub mod ranking;
pub mod state;
pub mod laws;
