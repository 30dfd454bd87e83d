//! What the web handlers decide.
pub mod chat_channel;
pub mod cli;
pub mod exec;
pub mod mcp;
pub mod mcp_laws;
pub mod metrics;
pub mod metrics_laws;
pub mod request_laws;
pub mod runner;
pub mod task;
pub mod task_laws;
pub mod ws_invoke;
pub mod ws_snapshot;
