pub mod osint;
pub mod poison_detector;
pub mod active_learner;
pub mod semantic_search;
pub mod storage_tiering;
pub mod data_connector;
