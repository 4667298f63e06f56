//! Rules engine of a settlement-and-trading board game played on a hexagonal grid.
pub mod axial;
pub mod board;
pub mod edge;
pub mod error;
pub mod game;
pub mod harbor;
pub mod hex;
pub mod placement;
pub mod phase;
pub mod player;
pub mod resource;
pub mod vertex;
pub mod yields;
