//! Threshold series: a partition of the 8-bit grayscale domain into named
//! tiles, an optional seeded noise pass, and the Lua texture document that a
//! luminance grid is rendered to.

pub mod coverage;
pub mod decimal;
pub mod error;
pub mod lua;
pub mod noise;
pub mod series;
pub mod step;
pub mod texture;
