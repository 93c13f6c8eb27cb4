//! Simulation and progression engine of a sand-dropping clicker game.
//!
//! Grains of sand fall under gravity and settle on the floor of a container,
//! the container holds a bounded number of grains, selling the grains turns
//! them into money, and money buys upgrades whose prices grow with their level.
//!
//! All quantities are integers: lengths are in micro-pixels, times in
//! microseconds, angles in micro-radians and money in whole units.

pub mod catalog;
pub mod game;
pub mod grain;
pub mod growth;
mod random;
pub mod upgrade;
