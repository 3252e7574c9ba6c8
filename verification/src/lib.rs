//! Verified core of an agent SDK: messages, state graphs, memory, policy,
//! replay validation and the task runtime's state machine.
pub mod text;
pub mod json;
pub mod message;
pub mod error;
pub mod agent;
pub mod a2a;
pub mod event;
pub mod assoc;
pub mod graph;
pub mod llm;
pub mod mcp;
pub mod memory;
pub mod rag;
pub mod tool;
pub mod runtime;
pub mod server;
