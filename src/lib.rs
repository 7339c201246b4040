//! A frame-driven card table: cards are grabbed with a pointer, dragged as a
//! fanned stack, dropped onto a grid and gathered into piles.
//!
//! All coordinates are fixed-point integers: one world unit is
//! [`geometry::UNIT`] sub-units, and scales are given in thousandths.

pub mod geometry;
pub mod easing;
pub mod card;
pub mod piles;
pub mod world;
pub mod player;
