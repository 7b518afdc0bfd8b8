//! What every game built on the store shares: handles, geometry, collisions.

pub mod collision;
pub mod datatypes;
pub mod enums;
pub mod math;
pub mod ui;
pub mod world;
