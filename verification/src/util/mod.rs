//! Small helpers.

pub mod timestamp;

pub use timestamp::format_duration;
