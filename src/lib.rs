//! A mine-marking puzzle on a fixed grid: the player marks cells to rebuild a
//! hidden pattern, guided by the mismatch between pattern and marks around
//! each square.

pub mod board;
pub mod geometry;
pub mod laws;
pub mod model;
pub mod pattern;
mod random;

pub use board::{Board, Cell, Grid};
pub use geometry::{Position, Region, Size, HEIGHT, WIDTH};
pub use model::{Level, Model, ModelView, State};
