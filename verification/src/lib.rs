//! Audio ingestion for speech recognition: reading a WAVE container,
//! repairing it once when it cannot be read, and normalizing its samples
//! into a mono buffer of binary32 values of unit amplitude.

pub mod decimal;
pub mod format;
pub mod sample;
pub mod rounding;
pub mod pcm;
pub mod mean;
pub mod normalize;
pub mod repair;
pub mod container;
pub mod report;
