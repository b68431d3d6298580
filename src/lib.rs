//! Tile scheduling, work distribution and result transfer for a progressive
//! Monte Carlo renderer of sphere scenes.
//!
//! The floating-point light transport itself lives with the program that
//! drives this library; what is kept here is the integer and byte logic that
//! decides which tile is rendered when, by whom, and how its pixels travel.

pub mod api;
pub mod tiles;
pub mod queue;
pub mod registry;
pub mod transfer;
