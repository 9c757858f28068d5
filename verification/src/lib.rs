//! Builders for GeoArrow-style nested geometry arrays.
pub mod array;
pub mod buffers;
pub mod builder;
pub mod capacity;
pub mod coord;
pub mod error;
pub mod geometry;
pub mod laws;
pub mod layout;
pub mod metadata;
pub mod offsets;
pub mod polygon;
mod std_wrappers;
