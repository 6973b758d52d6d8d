//! Scheduling core of a room-reservation service.
//!
//! A [`room::Room`] owns an ordered schedule of non-overlapping
//! [`event::Event`]s. Every operation on the schedule carries a contract that
//! Verus proves against the mathematical model of the room.

pub mod database;
pub mod epaper;
pub mod event;
pub mod image;
pub mod laws;
pub mod layout;
pub mod oid;
pub mod room;
pub mod route;
pub mod schedule;
pub mod time;
pub mod user;
