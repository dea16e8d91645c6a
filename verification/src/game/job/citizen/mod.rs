pub mod citizen;
pub mod police;
