pub mod assignment;
pub mod classic_game;
pub mod classic_game_status;
pub mod error;
pub mod event;
pub mod job;
pub mod random;
pub mod time;

use vstd::prelude::*;

use job::JobList;

verus! {

/// The kinds of game a room can play.
#[derive(Debug, Clone, Copy, PartialEq, Eq, Structural)]
pub enum GameType {
    ClassicGame,
}

/// A word of a skill message, resolved when the message is sent.
#[derive(Debug, Clone, Copy, PartialEq, Eq, Structural)]
pub enum GameString {
    /// The nickname of the player at the seat.
    Nickname(usize),
    /// The name of the job.
    Jobname(JobList),
}

} // verus!
