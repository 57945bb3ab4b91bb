//! Minimal reusable agent runtime: tool-call data, provider backends, tool
//! dispatch, and a fixed-budget agent loop written as a state machine. The
//! surrounding program performs the model requests; reading the tool calls
//! of each reply and the loop's decisions are made here and proved against
//! their contracts.
use vstd::prelude::*;

pub mod agent;
pub mod error;
pub mod provider;
pub mod text;
pub mod tool;
pub mod tool_call;

pub use agent::{Agent, Step, ToolOutcome};
pub use error::Error;
pub use provider::{ChatRequest, Message, ModelBackend, OllamaBackend, Provider, StaticBackend};
pub use tool::{dispatch, Tool};
pub use tool_call::{arg_object, arg_str, parse_tool_calls};
pub use tool_call::{ToolCall, ToolCallSource};

verus! {

/// Crate-wide result alias.
pub type Result<T> = core::result::Result<T, Error>;

} // verus!
