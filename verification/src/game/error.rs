use vstd::prelude::*;

verus! {

/// Why a game stops with an error.
#[derive(Debug, Clone, Copy, PartialEq, Eq, Structural)]
pub enum Error {
    /// The game needs between 4 and 12 players.
    IncorrectPeopleCount,
    /// The random number generator could not be seeded.
    RandomSource,
    /// A shuffle gave up on its source of randomness.
    Shuffle,
}

impl Error {
    /// A human-readable description of the error.
    pub fn message(&self) -> (res: &'static str)
        ensures
            res@ == match self {
                Error::IncorrectPeopleCount => "People count is too little or too much"@,
                Error::RandomSource => "Random number generator could not be seeded"@,
                Error::Shuffle => "Shuffle failed: bad randomness source"@,
            },
    {
        match self {
            Error::IncorrectPeopleCount => "People count is too little or too much",
            Error::RandomSource => "Random number generator could not be seeded",
            Error::Shuffle => "Shuffle failed: bad randomness source",
        }
    }
}

} // verus!
