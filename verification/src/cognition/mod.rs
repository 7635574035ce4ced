pub mod router;
pub mod speech_act;
pub mod suggestion_engine;
pub mod depth_adapter;
pub mod chain_verifier;
pub mod context_awareness;
pub mod self_critique;
