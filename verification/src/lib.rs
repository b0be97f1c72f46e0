//! A fixed-point ray caster for tile-grid worlds.
//!
//! One ray per screen strip is marched from the observer through a closed
//! tile grid; the distance of the first solid cell becomes a textured wall
//! slice between a ceiling and a floor, written into an RGB pixel buffer.
//! Every coordinate is a 16.16 fixed-point integer, so each step of the
//! pipeline has an exact mathematical description.

pub mod angles;
pub mod buffer;
pub mod caster;
pub mod compositor;
pub mod config;
pub mod direction;
pub mod fixed;
pub mod grid;
pub mod input;
pub mod observer;
pub mod projector;
pub mod renderer;
pub mod texture;
