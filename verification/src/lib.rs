//! Task assignment and villager state machine of a small colony simulation.
//!
//! The world is a store of entities, each carrying a record of optional
//! components. Buildings hold inventories, construction sites ask for
//! resources, and haulers carry them from the one to the other. One call of
//! the update functions advances the world by one tick.
//!
//! Lengths are whole numbers of units, a thousand to the pixel, and time is
//! counted in milliseconds.

pub mod engine;
pub mod game;
