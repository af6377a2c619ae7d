//! A force-directed layout engine for arranging glyph instances along a
//! horizontal line.
//!
//! A [`doc::Page`] owns a grid resolution, a registry of named, rasterized
//! glyphs, and an ordered collection of lines ([`doc::HBox`]).  Each line
//! couples its glyph instances by nearest-neighbour horizontal springs and a
//! shared vertical baseline spring, and relaxes their positions with explicit
//! Euler time-stepping.
//!
//! All coordinates, stiffnesses and time steps are fixed-point numbers:
//! the value `v` stands for the real number `v / 1_000_000_000_000` (see
//! [`fixed`]).  Every arithmetic step of the simulation is specified
//! exactly over that representation, including its truncation and
//! saturation behaviour.  One raw unit (1e-12) is the resolution: a force
//! whose product with the time step is below one raw unit truncates to
//! zero and moves nothing that step.

pub mod doc;
pub mod fixed;
pub mod text;
pub mod utils;
