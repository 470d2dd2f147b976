//! The verified core of an AI coding assistant: diff parsing and editing,
//! command parsing, the autocomplete prompt, the orchestrator's variables
//! and tool routing, and the decisions of the interactive front end.
use vstd::prelude::*;

pub mod autocomplete;
pub mod chat_request;
pub mod command;
pub mod fs_replace;
pub mod ides;
pub mod orch;
pub mod permission;
pub mod streamer;
pub mod style;
pub mod text;
pub mod tool;
pub mod ui;
pub mod walker;

verus! {

} // verus!
