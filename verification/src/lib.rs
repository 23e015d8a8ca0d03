//! A visual-novel playback engine: a compiler from line-oriented script text to
//! an addressable sequence of command blocks, and the state machines that decide
//! when each command takes visible effect.

pub mod animator;
pub mod assoc;
pub mod auto;
pub mod command;
pub mod config;
pub mod delay;
pub mod error;
pub mod executor;
pub mod laws;
pub mod overlay;
pub mod parser;
pub mod script;
pub mod text;
