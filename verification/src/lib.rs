//! Protocol engine of a debug adapter: message framing, sequence numbers,
//! and the per-session command dispatch, all stated over mathematical
//! models and proved against them.

pub mod breakpoints;
pub mod command;
pub mod debug_adapter;
pub mod debugger;
pub mod frames;
pub mod framing;
pub mod header;
pub mod laws;
pub mod messages;
pub mod path;
pub mod probe;
pub mod rules;
pub mod session;
pub mod text;
pub mod types;
