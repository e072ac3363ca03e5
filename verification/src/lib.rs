//! A hexagonal-grid mechanical-chemistry puzzle engine.
//!
//! The crate decodes two binary file formats — a puzzle definition and a
//! solution (placed mechanisms with per-cycle instruction tapes) — and then
//! simulates the mechanisms cycle by cycle, deciding whether the solution
//! legally produces the required output molecules without collisions.

pub mod collision;
pub mod data;
pub mod encode;
pub mod hex;
pub mod parse;
pub mod parts;
pub mod sim;
