//! Turns of command-line agents: what their output means and how they are driven.
pub mod attachment_laws;
pub mod attachments;
pub mod binary;
pub mod codex_driver;
pub mod codex_item_laws;
pub mod codex_laws;
pub mod codex_exchange_laws;
pub mod codex_stream;
pub mod codex_turn_laws;
pub mod connection;
pub mod connection_laws;
pub mod driver;
pub mod dsh_driver;
pub mod dsh_laws;
pub mod dsh_profile;
pub mod dsh_prompt;
pub mod dsh_stream;
pub mod dsh_tool_info;
pub mod frame_laws;
pub mod outcome;
pub mod prompt;
pub mod stream_json;
pub mod stream_laws;
pub mod tool_info;
pub mod tool_laws;
pub mod transcript;
pub mod turn;
pub mod turn_laws;
