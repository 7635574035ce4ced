pub mod atomic;
pub mod discourse;
pub mod semantic_role;
