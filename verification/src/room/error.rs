use vstd::prelude::*;

verus! {

/// Why a room refused a request.
#[derive(Debug, Clone, Copy, PartialEq, Eq, Structural)]
pub enum Error {
    RoomIsFull,
    AlreadyLeft,
    PlayerNotEnough,
    AlreadyStarted,
    /// The game could not be reached.
    CommunicationError,
    GameIsNotStarted,
}

impl Error {
    /// A human-readable description of the error.
    pub fn message(&self) -> (res: &'static str)
        ensures
            res@ == match self {
                Error::RoomIsFull => "Room is full"@,
                Error::AlreadyLeft => "Already left session"@,
                Error::PlayerNotEnough => "Player not enough"@,
                Error::AlreadyStarted => "Game have already been started"@,
                Error::CommunicationError => "Could not communicate with the game"@,
                Error::GameIsNotStarted => "Game is not started"@,
            },
    {
        match self {
            Error::RoomIsFull => "Room is full",
            Error::AlreadyLeft => "Already left session",
            Error::PlayerNotEnough => "Player not enough",
            Error::AlreadyStarted => "Game have already been started",
            Error::CommunicationError => "Could not communicate with the game",
            Error::GameIsNotStarted => "Game is not started",
        }
    }
}

} // verus!
