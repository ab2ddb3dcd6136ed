//! Conversion of raw pixel frames into fixed-size grids of characters.
//!
//! A pixel frame is sampled cell by cell, each sample is adjusted for
//! contrast and brightness, reduced to a luminance, and mapped to a
//! character of a gradient: the intensity ramp on flat cells, a directional
//! glyph set where an edge crosses the cell. All arithmetic is exact integer
//! arithmetic; real-valued settings are given in thousandths.

pub mod ascii_converter;
pub mod ascii_frame;
pub mod edge_detector;
pub mod edge_map;
pub mod error;
pub mod image_frame;
pub mod sampling;
pub mod tone;
