//! A personal time tracker: task entries, their start / stop / continue
//! transitions, elapsed time, and the flat-file log that keeps them.

pub mod clock;
pub mod command;
pub mod error;
pub mod record;
pub mod report;
pub mod store;
pub mod task;
pub mod text;
