//! Activity tracking: per-user profiles with a message count, a streak of
//! consecutive active days and credits earned every hundredth message, and a
//! per-day count of all messages.

pub mod date;
pub mod stats;
pub mod user;
