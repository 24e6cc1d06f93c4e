//! Core of a sparse, unbounded Conway's Game of Life simulator.
//!
//! The library owns the simulation state and the spatial indexing that a
//! renderer needs: the sparse set of alive cells, the remembered initial
//! pattern, the generation stepper, the dirty-chunk tracker, and the
//! viewport-driven chunk visibility calculator.

pub mod chunks;
pub mod conway;
pub mod grid;
pub mod patterns;
pub mod states;
pub mod store;
pub mod ui;
pub mod visibility;
pub mod world;
