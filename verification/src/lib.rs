//! Integer pixel-scaling ratios for upscaling a small image into a larger
//! display area, either uniformly (square pixels) or with aspect-ratio
//! correction (rectangular pixels), keeping every scale factor a whole
//! number of at least 1.
#![allow(non_snake_case)]

pub mod scaling;
pub mod aliases;
pub mod laws;

pub use scaling::Ratios;
pub use scaling::Size;
pub use scaling::calculateRatio;
pub use scaling::calculateRatios;
pub use scaling::calculateSize;
pub use scaling::calculateSizeCorrected;
pub use scaling::calculateSizeCorrectedPerfectY;
pub use aliases::calculate_ratio;
pub use aliases::calculate_ratios;
pub use aliases::calculate_size;
pub use aliases::calculate_size_corrected;
pub use aliases::calculate_size_corrected_perfect_y;
