//! Dice domain logic for a physics-driven dice roller.
//!
//! The library covers the three parts of a roll that are pure data and rules:
//! parsing a free-form dice-notation string into a list of die types,
//! resolving a settled die's rest orientation to the face value it shows, and
//! aggregating the per-die values into a roll result. The host engine that
//! spawns rigid bodies, steps physics and reports orientations stays outside.

pub mod dice;
pub mod face;
pub mod notation;
pub mod result;
