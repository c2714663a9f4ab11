//! Plain constructors for [`CommandNode`].

use vstd::prelude::*;

use crate::tree::{ArgumentType, CommandNode};

verus! {

impl<T: Clone> CommandNode<T> {
    /// A node that accepts any of the given literal prefixes.
    pub fn literal(literals: Vec<String>, children: Vec<CommandNode<T>>) -> (r: Self)
        ensures
            r == (CommandNode::Literal { literals, child_nodes: children }),
    {
        CommandNode::Literal { literals, child_nodes: children }
    }

    /// A node that captures a free-form token of the given kind.
    pub fn argument(argument_type: ArgumentType, children: Vec<CommandNode<T>>) -> (r: Self)
        ensures
            r == (CommandNode::Argument { argument_type, child_nodes: children }),
    {
        CommandNode::Argument { argument_type, child_nodes: children }
    }

    /// A node that accepts any of the given literal prefixes and captures
    /// the chosen one as an argument.
    pub fn argument_choice(choices: Vec<String>, children: Vec<CommandNode<T>>) -> (r: Self)
        ensures
            r == (CommandNode::ArgumentChoice { choices, child_nodes: children }),
    {
        CommandNode::ArgumentChoice { choices, child_nodes: children }
    }

    /// A terminal node carrying the marker value.
    pub fn final_node(expects_empty_message: bool, value: T) -> (r: Self)
        ensures
            r == (CommandNode::Final { expects_empty_message, value }),
    {
        CommandNode::Final { expects_empty_message, value }
    }
}

} // verus!
