//! The errors a command tree can report for one dispatch request.

use vstd::prelude::*;

use crate::tree::ParseError;

verus! {

/// Why a command tree rejected a call: the grammar did not match, the
/// marker-to-action conversion failed, or the call itself was rejected.
#[derive(Debug, Clone)]
pub enum CommandParseError {
    Parse(ParseError),
    Args(ArgsError),
    Call(CallError),
}

/// An arity mismatch between a command's grammar and its action marker.
#[derive(Debug, Clone, Copy, PartialEq, Eq, Structural)]
pub enum ArgsError {
    TooMany,
    NotEnough,
}

/// A syntactically matched call that the tree rejected.
#[derive(Debug, Clone, Copy, PartialEq, Eq, Structural)]
pub enum CallError {
    OnCooldown,
    Unauthorized,
}

impl ArgsError {
    /// A human-readable description of the error.
    pub fn describe(&self) -> (r: &'static str)
        ensures
            *self == ArgsError::TooMany ==> r@ == "Too many arguments"@,
            *self == ArgsError::NotEnough ==> r@ == "Not enough arguments"@,
    {
        match self {
            ArgsError::TooMany => "Too many arguments",
            ArgsError::NotEnough => "Not enough arguments",
        }
    }
}

impl CallError {
    /// A human-readable description of the error.
    pub fn describe(&self) -> (r: &'static str)
        ensures
            *self == CallError::OnCooldown ==> r@ == "Command is on cooldown"@,
            *self == CallError::Unauthorized ==> r@ == "Unauthorized"@,
    {
        match self {
            CallError::OnCooldown => "Command is on cooldown",
            CallError::Unauthorized => "Unauthorized",
        }
    }
}

} // verus!
