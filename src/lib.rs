//! Core of a 2D arcade loop: an avatar collects pickups (stars) and avoids
//! bouncing hazards (enemies) inside a rectangular arena.
//!
//! All quantities are fixed-point integers: positions in units of
//! `1 / UNITS_PER_PIXEL` pixel, time in microseconds, and direction
//! components in millionths. A direction component times a speed in pixels
//! per second times an elapsed time in microseconds, divided by
//! `DISPLACEMENT_DIVISOR`, is a displacement in position units.
pub mod components;
pub mod enemy;
pub mod events;
pub mod geometry;
pub mod phase;
pub mod player;
pub mod random;
pub mod score;
pub mod star;
pub mod timer;
pub mod world;
