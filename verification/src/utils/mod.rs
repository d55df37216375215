//! The retrieval side of the agent (quantized embeddings, the semantic
//! index and its exact similarity ranking) and the conversation
//! orchestrator that drives a query across model calls and tool runs.

pub mod agent;
pub mod embed;
pub mod index;
pub mod similarity;

pub use agent::MultiTurnAgent;
pub use index::{SemanticIndex, VectorStore};
