//! A punch clock: work sessions are clocked in and out, every action is
//! written to an append-only text log, and the time worked is rebuilt by
//! replaying that log.

pub mod command;
pub mod keeper;
pub mod record;
pub mod session;
pub mod text;
pub mod timestamp;
