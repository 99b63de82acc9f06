//! Core logic of a family of interactive generative-art sketches and of the
//! curve-building library they share.
//!
//! Geometry is carried in fixed-point integers: positions in thousandths of a
//! screen unit, directions as vectors of nominal length [`geom::UNIT`], hues in
//! thousandths of a degree, and fractions in thousandths.  The windowing,
//! drawing and noise-sampling edges of each sketch live outside this crate and
//! exchange plain values with it.

pub mod geom;

pub mod color;

pub mod events;

pub mod rng;

pub mod bezier;

pub mod tree;

pub mod grid;

pub mod pointgrid;

pub mod swarm;

pub mod trail;

pub mod flowers;

pub mod mesh;

pub mod template;

