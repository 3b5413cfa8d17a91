//! Core of an image-reveal game: a rectangular canvas is hidden behind a
//! covering, a list of non-overlapping polygons that together tile it, and
//! the polygons are removed one at a time by the surrounding application.
//!
//! The covering generator works on exact rational coordinates (integer
//! numerator over integer denominator), so every geometric claim here is
//! exact: grid cells meet edge to edge, triangle areas are compared as
//! integers, and nothing is lost to rounding.

pub mod common;
pub mod plane_covering;
pub mod rng;
pub mod questions;
pub mod image_loading;
pub mod reveal_plugin_android;
