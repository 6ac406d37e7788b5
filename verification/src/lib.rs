//! A 2-D electromagnetic field simulation with contour extraction.
//!
//! The library models a time-dependent electromagnetic field sourced by point
//! charges on a padded grid with an absorbing (PML) boundary layer, and traces
//! level curves of a directly computed Coulomb potential for visualization.
//! All real-valued quantities are carried as 64-bit fixed-point numbers with
//! 32 fractional bits (see [`fx`]), so that every numeric step has an exact
//! mathematical meaning that the contracts can state.

pub mod arrows;
pub mod charge;
pub mod contours;
pub mod diag;
pub mod direct;
pub mod field;
pub mod fx;
pub mod geometry;
pub mod grid;
pub mod pml;
pub mod stencil;
