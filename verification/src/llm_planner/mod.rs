//! The planner that asks a language model for the steps of a turn.

pub mod calls;
pub mod config;
pub mod costs;
pub mod input;
pub mod kv;
pub mod laws;
pub mod message;
pub mod prune;
pub mod request;
pub mod resolve;
pub mod tool_result;
pub mod turn;
