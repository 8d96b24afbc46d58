//! Per-frame simulation of a local multiplayer arena brawler: circular bodies
//! move from analog input, punch each other, bounce elastically, fall out of a
//! circular arena and score points.
//!
//! All quantities are fixed-point integers: lengths and velocities are counted
//! in thousandths of a world unit, durations in milliseconds, and analog stick
//! axes in thousandths of full deflection.
pub mod arena;
pub mod collision;
pub mod config;
pub mod event;
pub mod game;
pub mod gamepad;
pub mod lifecycle;
pub mod movement;
pub mod physics;
pub mod player;
pub mod points;
pub mod rotation;
pub mod timer;
pub mod vector;
