//! The records that the editor works on.

pub mod sponsor;
pub mod staff;
pub mod team;
