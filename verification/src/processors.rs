//! Concrete processor nodes: scalar smoothing, shape and bar renderers,
//! loudness, and weighted frame merging.

pub mod average;
pub mod circle;
pub mod equalizer;
pub mod loudness;
pub mod merge;
pub mod spectrum;
