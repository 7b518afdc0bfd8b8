//! Buildings: storage, construction sites and what happens at their doors.

pub mod datatypes;
pub mod house;
pub mod placement;
pub mod step;
pub mod utils;
pub mod warehouse;
