use vstd::prelude::*;

use super::{JobList, Team};

verus! {

/// How a job points at a target.
#[derive(Debug, Clone, Copy, PartialEq, Eq, Structural)]
pub enum HandType {
    NoHand,
    /// Points once per phase.
    FixedHand,
    /// May point again during the phase.
    MovingHand,
    /// The mafia's shared gun.
    MafiaHand,
}

/// A job's fixed description.
#[derive(Debug, Clone, Copy, PartialEq, Eq, Structural)]
pub struct JobOption {
    pub job_id: JobList,
    pub team: Team,
    pub hand_type: HandType,
    pub vote_right: i32,
    pub shared_hand: bool,
}

/// A job's changing state (none so far).
#[derive(Debug, Clone, Copy, PartialEq, Eq, Structural)]
pub struct JobStatus {}

} // verus!
