use vstd::prelude::*;

verus! {

/// Why bytes could not be read as a packet or as text.
#[derive(Debug, Clone, Copy, PartialEq, Eq, Structural)]
pub enum PacketError {
    /// Fewer than the eight header bytes.
    TooShort,
    /// An item's length prefix or body runs past the end of the bytes.
    Invalid,
    /// An item that should hold text is not valid UTF-8.
    NotUtf8,
}

impl PacketError {
    /// A human-readable description of the error.
    pub fn message(&self) -> (res: &'static str)
        ensures
            res@ == match self {
                PacketError::TooShort => "Data is too short"@,
                PacketError::Invalid => "Invalid packet"@,
                PacketError::NotUtf8 => "Data is not valid UTF-8"@,
            },
    {
        match self {
            PacketError::TooShort => "Data is too short",
            PacketError::Invalid => "Invalid packet",
            PacketError::NotUtf8 => "Data is not valid UTF-8",
        }
    }
}

} // verus!
