pub mod error;
pub mod manager;
pub mod room;
