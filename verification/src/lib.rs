//! Grid-based collision queries and the movement rules built on them.

pub mod grid;
pub mod index;
pub mod probe;
pub mod state;
pub mod step;
pub mod surface;
pub mod traverse;
