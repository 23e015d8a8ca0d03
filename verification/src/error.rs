//! The kinds of failure that the engine tells apart.

use crate::command::ParserError;
use vstd::prelude::*;
use vstd::std_specs::convert::FromSpecImpl;

verus! {

/// What went wrong, by the part of the engine that it concerns.
#[derive(Debug, Clone, Copy, PartialEq, Eq, Structural)]
pub enum EngineError {
    /// A script, an asset or a save file could not be read or written.
    FileError,
    /// A script did not compile.
    ParseError,
    /// The display surface failed.
    UiError,
    /// A scheduler could not deliver a message.
    AutoError,
    /// The settings are malformed.
    ConfigError,
}

impl From<ParserError> for EngineError {
    fn from(e: ParserError) -> (r: EngineError) {
        EngineError::ParseError
    }
}

impl FromSpecImpl<ParserError> for EngineError {
    open spec fn obeys_from_spec() -> bool {
        true
    }

    open spec fn from_spec(e: ParserError) -> EngineError {
        EngineError::ParseError
    }
}

} // verus!
