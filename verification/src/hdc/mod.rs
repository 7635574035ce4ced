pub mod compute;
pub mod encoder_protection;
pub mod error;
pub mod hdlm;
pub mod precision;
pub mod resonator;
pub mod role_binding;
pub mod rng;
pub mod vector;
