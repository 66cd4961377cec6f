//! Availability scheduling for a game group: the fourteen weekly time slots,
//! the reactions that mark a member unavailable, the timetable picture that
//! shows which slots are free, and the bookkeeping around them.

pub mod cache;
pub mod reactions;
pub mod refresh;
pub mod setup;
mod text;
pub mod timeslots;
pub mod timetable;
