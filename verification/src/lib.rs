//! Occupancy grid of a small city and the route bookkeeping of the
//! pedestrians that walk it.
//!
//! The grid is a square of cells centred on the origin; a cell is either free
//! or holds a building of some height. Pedestrians pick a destination, ask for
//! a route over the free cells, follow it cell by cell and drop it whenever
//! the grid changes under them.

pub mod city;
pub mod coords;
pub mod dice;
pub mod grid;
pub mod laws;
pub mod person;
