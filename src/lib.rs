pub mod analyzer;
pub mod dataset;
pub mod hierarchy;
pub mod histogram;
pub mod progress;
