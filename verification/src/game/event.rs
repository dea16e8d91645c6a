use vstd::prelude::*;

use super::time::Time;
use super::GameString;

verus! {

/// What the game loop reacts to.
#[derive(Debug)]
pub enum Event {
    Start,
    TimeChanged(Time),
    /// The player at the seat asks for a longer day.
    IncreaseTime(usize),
    /// The player at the seat asks for a shorter day.
    DecreaseTime(usize),
    /// The player at the seat says something.
    Chat(usize, String),
    /// The player at the first seat points at the second.
    Hand(usize, usize),
    /// Tell the player at the seat the skill message with these words.
    Skill(i32, Vec<GameString>, usize),
    /// Tell the player at the first seat the job of the second.
    Memo(usize, usize),
    MafiaKill,
    Close,
}

/// `e` is the skill message `id` with words `args` for the seat `receiver`.
pub open spec fn is_skill(e: Event, id: i32, args: Seq<GameString>, receiver: usize) -> bool {
    e matches Event::Skill(i, a, r) && i == id && a@ == args && r == receiver
}

} // verus!
