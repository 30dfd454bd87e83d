//! Verified core of a multi-agent coding assistant host: stream mapping,
//! turn driving, chat relaying and the instance services around them.
pub mod agents;
pub mod chat;
pub mod cli;
pub mod commands;
pub mod description_laws;
pub mod digest;
pub mod errors;
pub mod events;
pub mod gate_laws;
pub mod handlers;
pub mod ids;
pub mod image_pins;
pub mod json;
pub mod json_laws;
pub mod paths;
pub mod paths_laws;
pub mod replay_gate;
pub mod table;
pub mod text;
pub mod text_laws;
pub mod tool_description;
