//! Engine for Glinski hexagonal chess played by two networked clients.
//!
//! The board has 11 files of varying length arranged as a hexagon.  This
//! crate owns the board geometry, the directional move generation, the
//! per-player perspective transform, the turn gate and the shared game
//! store.  Network transport and wire serialization live outside it.

pub mod geometry;
pub mod models;
pub mod moves;
pub mod perspective;
pub mod session;
pub mod steps;
