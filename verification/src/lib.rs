//! A command-grammar engine for a chat bot: a tree-shaped matcher that turns
//! free-text input into typed actions, plus a dispatch layer that gates
//! matched commands by caller authority and per-argument cooldown.

use vstd::prelude::*;

pub mod action;
pub mod builder;
pub mod chat;
pub mod commands;
pub mod config;
pub mod constructor;
pub mod input;
pub mod laws;
pub mod model;
pub mod search;
pub mod secret;
pub mod text;
pub mod token;
pub mod tree;

verus! {

pub use crate::action::{Action, AppAction};
pub use crate::builder::CommandBuilder;
pub use crate::commands::CommandCall;
pub use crate::model::Model;
pub use crate::tree::{ArgumentType, CommandNode, ParseError, ParsedCommand};

} // verus!
