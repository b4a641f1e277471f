//! Highway transition-curve geometry and design-standard compliance.
//!
//! The library computes horizontal (circular-arc) and vertical (parabolic)
//! road curves from raw text inputs, derives the remaining geometric
//! quantities, and validates them against the AASHTO and CALTRANS/HDM
//! sight-distance tables.
//!
//! Every quantity is carried as an exact fixed-point scalar ([`fixed::Fixed`],
//! a count of nano-units), so each derivation has an exact contract.
//! Transcendental values (sines, cosines, arc tangents) cannot be computed
//! here; the few places that need one take it as an argument.

pub mod angle;
pub mod datatypes;
pub mod fixed;
pub mod horizontal;
pub mod numfmt;
pub mod parse;
pub mod tables;
pub mod vertical;
