//! Escape-time fractal rendering: row-band partitioning of the image,
//! filling of each band, the pixel shade rule, the argument grammar and
//! grayscale PNG encoding.
pub mod encode;
pub mod parse;
pub mod partition;
pub mod render;
