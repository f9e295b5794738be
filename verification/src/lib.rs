//! Core of a tile-based maze-chase simulation: a player actor collects
//! pickups on a 32-unit grid while avoiding patrollers, inside a maze of
//! static obstacles. This crate holds the verified simulation engine —
//! entities, per-frame orchestration, and the movement/collision state
//! machines. Rendering, input polling and pacing are left to the caller.

pub mod block;
pub mod entity;
pub mod game;
pub mod graphics;
pub mod grid;
pub mod pacman;
pub mod patroller;
