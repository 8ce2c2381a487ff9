//! Per-day journal storage: calendar dates, day entries, their file
//! format, the one-time conversion of plain-text notes, and the session
//! that keeps visited days in memory and writes them back when they change.

pub mod date;
pub mod entry;
pub mod session;
pub mod store;
