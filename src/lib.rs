//! Weekly album chart collage: cover-art grid and ranked legend.

pub mod aggregator;
pub mod compose;
pub mod fetch;
pub mod layout;
pub mod raster;
pub mod types;
