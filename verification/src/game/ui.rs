//! What the interface shows of the world.

pub mod datatypes;
pub mod step;
