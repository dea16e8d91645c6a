pub mod binarydata;
pub mod error;
pub mod packet;
pub mod utils;

pub use packet::Packet;
