use vstd::prelude::*;

pub mod adversary;
pub mod agent;
pub mod cognition;
pub mod data_ingestion;
pub mod data_quality;
pub mod diag;
pub mod formal;
pub mod hdc;
pub mod hdlm;
pub mod ingest;
pub mod intelligence;
pub mod psl;
pub mod sealed;
pub mod text;

verus! {

} // verus!
