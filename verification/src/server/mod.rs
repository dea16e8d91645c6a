pub mod session;

use vstd::prelude::*;

verus! {

/// The longest packet the server reads, its length prefix included.
pub const MAX_PACKET_LEN: u32 = 100000;

/// How many bytes follow a length prefix of `len` (the prefix counts its
/// own four bytes); `None` for a packet longer than `MAX_PACKET_LEN`.
pub fn frame_body_len(len: u32) -> (res: Option<usize>)
    requires
        len > MAX_PACKET_LEN || len >= 4,
    ensures
        len > MAX_PACKET_LEN ==> res is None,
        len <= MAX_PACKET_LEN ==> res == Some((len - 4) as usize),
{
    if len > MAX_PACKET_LEN {
        return None;
    }
    Some((len - 4) as usize)
}

} // verus!
