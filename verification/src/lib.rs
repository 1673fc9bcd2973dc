//! Core simulation of a single-screen arcade level: a flying player carries
//! passengers between numbered gates while avoiding obstacles and creatures.
//!
//! All continuous quantities (positions, velocities, durations) are held as
//! fixed-point integers: one world unit is `globals::SCALE` micro-units.
//! Rendering, audio and input decoding live outside this crate; the library
//! receives decoded intents and emits events.

pub mod board;
pub mod collision;
pub mod creatures;
pub mod geometry;
pub mod globals;
pub mod passenger;
pub mod player;
pub mod random;
pub mod sim;
pub mod sprite;
pub mod utils;
