//! Conway's Game of Life on a fixed-size grid, with a publisher/consumer
//! pair that decouples simulation cadence from display cadence.
//!
//! The grid offers bounds-checked access, the engine advances one
//! generation at a time under the synchronous-update rule, and the
//! publisher hands alive-cell snapshots to a consumer through a bounded
//! slot whose backpressure policy is configurable.

pub mod canvas;
pub mod game_of_life;
pub mod publisher;
