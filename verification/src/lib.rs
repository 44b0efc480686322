//! Simulation core of a falling-block puzzle game: the shape catalog, the
//! falling piece, the board, the collision resolver, line clearing and the
//! per-tick orchestration. Rendering, input polling and frame scheduling
//! belong to the host.

pub mod board;
pub mod config;
pub mod game;
pub mod lines;
pub mod piece;
pub mod resolver;
pub mod shape;
pub mod timer;
