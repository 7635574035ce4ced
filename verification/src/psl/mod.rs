pub mod trust;
pub mod probes;
