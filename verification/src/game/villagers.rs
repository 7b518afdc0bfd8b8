//! Villagers: what they carry, what they are doing, and how they move.

pub mod datatypes;
pub mod hauler;
pub mod step;
