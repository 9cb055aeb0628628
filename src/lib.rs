//! Simulation core of a 2D platformer: component storage with slot reuse,
//! a tag-indexed entity registry, AABB collision resolution and a
//! timer-driven player movement state machine.
//!
//! Every length, position, speed and acceleration is a fixed-point integer:
//! `geometry::PIXEL` units make one pixel.

pub mod geometry;
pub mod components;
pub mod entities;
pub mod collision;
pub mod movement;
pub mod levels;
pub mod world;
