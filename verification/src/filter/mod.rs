pub mod filter;

pub use filter::Filter;
