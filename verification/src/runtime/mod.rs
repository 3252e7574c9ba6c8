pub mod agent_loop;
pub mod replay;
pub mod store;
