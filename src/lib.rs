//! A point-cloud pipeline: columnar batches in, positioned and coloured
//! render boxes out, with a numerically stable local frame.
//!
//! Coordinates are fixed-point integers; the caller picks the unit.

pub mod geometry;
pub mod cloud;
pub mod store;
pub mod color;
pub mod spatial;
pub mod instances;
pub mod loading;
pub mod pipeline;
