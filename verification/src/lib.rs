//! A verified core for a tool-calling conversational agent: fixed-point
//! arithmetic tools, an embedding-backed semantic index with exact
//! cosine-similarity ranking, and the multi-turn orchestration state machine
//! that drives a query through model responses and tool invocations.

pub mod num;
pub mod tools;
pub mod utils;
