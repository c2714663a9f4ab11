//! The configured command set: a mapping from command name to response text
//! plus one global cooldown.

use vstd::prelude::*;

verus! {

/// Simple call-and-response commands, as read from the configuration file:
/// ordered pairs of command name and response text, and one cooldown that
/// applies to all of them, in time units (milliseconds).
#[derive(Debug, Clone, PartialEq, Eq)]
pub struct SimpleCommands {
    pub cooldown: u64,
    pub commands: Vec<(String, String)>,
}

impl Default for SimpleCommands {
    /// No configured commands, with a thirty-second cooldown.
    fn default() -> (r: Self)
        ensures
            r.cooldown == 30000,
            r.commands@ =~= Seq::<(String, String)>::empty(),
    {
        SimpleCommands { cooldown: 30000, commands: Vec::new() }
    }
}

} // verus!
