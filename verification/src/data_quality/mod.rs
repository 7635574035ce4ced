pub mod classifier;
pub mod domain;
pub mod source;
