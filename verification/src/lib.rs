//! Measuring two quadratic sorting algorithms: the algorithms themselves, the
//! decoding of the datasets they run on, the sampling of memory and time
//! around one run, and the suite that runs every algorithm on every dataset.

pub mod benchmark;
pub mod dataset;
pub mod error;
pub mod memory;
pub mod sorting;
