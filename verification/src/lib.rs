//! A deterministic arena simulation engine.
//!
//! Ships are steered by remote agents; every tick the engine moves
//! projectiles and ships, resolves hits, and prepares what each agent and
//! each observer is sent. All quantities are fixed-point numbers, so a run
//! is reproducible bit for bit.

pub mod entity;
pub mod fixed;
pub mod frame;
pub mod game;
pub mod ranking;
pub mod sink;
pub mod vector;
