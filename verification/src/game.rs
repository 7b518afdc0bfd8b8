//! The colony itself: inventories, tasks, villagers and construction.

pub mod buildings;
pub mod constants;
pub mod invariants;
pub mod scenes;
pub mod startup;
pub mod step;
pub mod tasks;
pub mod ui;
pub mod villagers;
