pub mod ast;
pub mod codebook;
pub mod error;
pub mod symbolic_codebook;
