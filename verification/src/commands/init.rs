//! Construction of the registry: the fixed built-in commands and the
//! reloadable configured set.

use vstd::prelude::*;

use crate::builder::{
    is_argument_wrapper, is_literal_wrapper, node_children, spec_attached, spec_is_fold,
    CommandBuilder,
};
use crate::commands::action::CommandAction;
use crate::commands::authority::AuthorityLevel;
use crate::commands::tree::{CommandTree, TreeModel};
use crate::commands::Commands;
use crate::config::SimpleCommands;
use crate::tree::{ArgumentType, CommandNode};

verus! {

/// The cooldown of the built-in greeting commands: thirty seconds, in
/// milliseconds.
pub const GREETING_COOLDOWN: u64 = 30000;

/// The grammar of a configured response command: the literal `!name`,
/// then a `Final` node that expects the rest of the message to be empty and
/// says `response`.
pub open spec fn is_say_root(
    root: CommandNode<CommandAction>,
    name: Seq<char>,
    response: Seq<char>,
) -> bool {
    &&& root matches CommandNode::Literal { literals, child_nodes } && {
        &&& literals.deep_view() == seq!["!"@ + name]
        &&& child_nodes@.len() == 1
        &&& (child_nodes@[0] matches CommandNode::Final { expects_empty_message, value } && {
            &&& expects_empty_message
            &&& (value matches CommandAction::Say(m) && m@ == response)
        })
    }
}

/// The grammar of a built-in greeting command: the literal `name`, a `Word`
/// argument, then a `Final` node expecting the rest to be empty, marked with
/// `marker`.
pub open spec fn is_greeting_root(
    root: CommandNode<CommandAction>,
    name: Seq<char>,
    marker: CommandAction,
) -> bool {
    &&& root matches CommandNode::Literal { literals, child_nodes } && {
        &&& literals.deep_view() == seq![name]
        &&& child_nodes@.len() == 1
        &&& (child_nodes@[0] matches CommandNode::Argument { argument_type, child_nodes: inner }
            && {
            &&& argument_type == ArgumentType::Word
            &&& inner@.len() == 1
            &&& (inner@[0] matches CommandNode::Final { expects_empty_message, value } && {
                &&& expects_empty_message
                &&& value == marker
            })
        })
    }
}

/// The grammar of the built-in reload command: the literal `!reload`, then a
/// `Final` node expecting the rest to be empty, marked `ReloadConfig`.
pub open spec fn is_reload_root(root: CommandNode<CommandAction>) -> bool {
    &&& root matches CommandNode::Literal { literals, child_nodes } && {
        &&& literals.deep_view() == seq!["!reload"@]
        &&& child_nodes@.len() == 1
        &&& (child_nodes@[0] matches CommandNode::Final { expects_empty_message, value } && {
            &&& expects_empty_message
            &&& value == CommandAction::ReloadConfig
        })
    }
}

/// A freshly configured response command: open to every caller, with the
/// configured cooldown and no running windows.
pub open spec fn is_configured_tree(
    t: TreeModel,
    name: Seq<char>,
    response: Seq<char>,
    cooldown: u64,
) -> bool {
    &&& is_say_root(t.root, name, response)
    &&& t.authority_level == AuthorityLevel::Viewer
    &&& t.cooldown == cooldown
    &&& t.timers == Map::<Seq<Seq<char>>, u64>::empty()
}

/// A built-in greeting command: open to every caller, on the greeting
/// cooldown, with no running windows.
pub open spec fn is_greeting_tree(t: TreeModel, name: Seq<char>, marker: CommandAction) -> bool {
    &&& is_greeting_root(t.root, name, marker)
    &&& t.authority_level == AuthorityLevel::Viewer
    &&& t.cooldown == GREETING_COOLDOWN
    &&& t.timers == Map::<Seq<Seq<char>>, u64>::empty()
}

/// The built-in reload command: broadcasters only, no cooldown, no running
/// windows.
pub open spec fn is_reload_tree(t: TreeModel) -> bool {
    &&& is_reload_root(t.root)
    &&& t.authority_level == AuthorityLevel::Broadcaster
    &&& t.cooldown == 0
    &&& t.timers == Map::<Seq<Seq<char>>, u64>::empty()
}

/// Builds one configured response command for `!name`.
fn make_say_tree(name: &str, response: &str, cooldown: u64) -> (r: CommandTree)
    ensures
        is_configured_tree(r@, name@, response@, cooldown),
{
    let mut bang = "!".to_owned();
    bang.append(name);
    let mut lits: Vec<String> = Vec::new();
    lits.push(bang);
    let ghost lits_snap = lits;
    let say = CommandAction::Say(response.to_owned());
    let ghost marker = say;
    let b = CommandBuilder::new().literal(lits);
    let ghost bview = b@;
    let root = b.finalize(true, say);
    proof {
        let leaf = CommandNode::Final { expects_empty_message: true, value: marker };
        assert(bview.len() == 1);
        assert(bview[0] == bview.last());
        assert(is_literal_wrapper(bview[0], lits_snap));
        assert(bview.drop_first() =~= Seq::<CommandNode<CommandAction>>::empty());
        assert(spec_is_fold(root, bview, leaf));
        assert(spec_is_fold(node_children(root).last(), bview.drop_first(), leaf));
        assert(node_children(root).last() == leaf);
        assert(spec_attached(bview[0], leaf, root));
        assert(lits_snap.deep_view() =~= seq!["!"@ + name@]);
        match bview[0] {
            CommandNode::Literal { literals, child_nodes } => {
                assert(node_children(root) =~= seq![leaf]);
            },
            _ => {
                assert(false);
            },
        }
        assert(is_say_root(root, name@, response@));
    }
    CommandTree::new(root).with_cooldown(cooldown)
}

/// Builds one built-in greeting command for the literal `name`.
fn make_greeting_tree(name: &str, marker: CommandAction) -> (r: CommandTree)
    ensures
        is_greeting_tree(r@, name@, marker),
{
    let mut lits: Vec<String> = Vec::new();
    lits.push(name.to_owned());
    let ghost lits_snap = lits;
    let ghost marker_snap = marker;
    let b1 = CommandBuilder::new().literal(lits);
    let ghost b1v = b1@;
    let b = b1.word();
    let ghost bview = b@;
    let root = b.finalize(true, marker);
    proof {
        let leaf = CommandNode::Final { expects_empty_message: true, value: marker_snap };
        assert(bview.len() == 2);
        assert(bview[0] == bview.take(1)[0]);
        assert(bview[0] == b1v[0]);
        assert(is_literal_wrapper(bview[0], lits_snap));
        assert(is_argument_wrapper(bview[1], ArgumentType::Word));
        assert(bview.drop_first() =~= seq![bview[1]]);
        assert(bview.drop_first().drop_first() =~= Seq::<CommandNode<CommandAction>>::empty());
        let mid = node_children(root).last();
        assert(spec_is_fold(root, bview, leaf));
        assert(spec_attached(bview[0], mid, root));
        assert(spec_is_fold(mid, bview.drop_first(), leaf));
        assert(spec_attached(bview.drop_first()[0], node_children(mid).last(), mid));
        assert(bview.drop_first()[0] == bview[1]);
        assert(spec_is_fold(node_children(mid).last(), bview.drop_first().drop_first(), leaf));
        assert(node_children(mid).last() == leaf);
        assert(spec_attached(bview[1], leaf, mid));
        assert(lits_snap.deep_view() =~= seq![name@]);
        match bview[1] {
            CommandNode::Argument { argument_type, child_nodes } => {
                assert(node_children(mid) =~= seq![leaf]);
            },
            _ => {
                assert(false);
            },
        }
        match bview[0] {
            CommandNode::Literal { literals, child_nodes } => {
                assert(node_children(root) =~= seq![mid]);
            },
            _ => {
                assert(false);
            },
        }
        assert(is_greeting_root(root, name@, marker_snap));
    }
    CommandTree::new(root).with_cooldown(GREETING_COOLDOWN)
}

impl Commands {
    /// Replaces the configured command set, one response command per
    /// configured name, each on the configured cooldown. The hardcoded set
    /// is untouched, and running cooldown windows of the old configured set
    /// are discarded with it.
    pub fn reload(&mut self, config: &SimpleCommands)
        ensures
            final(self)@.hardcoded == old(self)@.hardcoded,
            final(self)@.configured.len() == config.commands@.len(),
            forall|i: int|
                0 <= i < config.commands@.len() ==> is_configured_tree(
                    #[trigger] final(self)@.configured[i],
                    config.commands@[i].0@,
                    config.commands@[i].1@,
                    config.cooldown,
                ),
    {
        let mut configured: Vec<CommandTree> = Vec::new();
        let n = config.commands.len();
        let mut i: usize = 0;
        while i < n
            invariant
                i <= n,
                n == config.commands@.len(),
                configured@.len() == i,
                forall|j: int|
                    0 <= j < i ==> is_configured_tree(
                        #[trigger] configured@[j]@,
                        config.commands@[j].0@,
                        config.commands@[j].1@,
                        config.cooldown,
                    ),
            decreases n - i,
        {
            let pair = &config.commands[i];
            let tree = make_say_tree(pair.0.as_str(), pair.1.as_str(), config.cooldown);
            configured.push(tree);
            i += 1;
        }
        self.configured = configured;
    }

    /// The full registry at startup: the hardcoded commands — `!reload` for
    /// broadcasters and the three greetings — plus the configured set.
    pub fn init(config: &SimpleCommands) -> (r: Self)
        ensures
            r@.hardcoded.len() == 4,
            is_reload_tree(r@.hardcoded[0]),
            is_greeting_tree(r@.hardcoded[1], "!hello"@, CommandAction::Hello),
            is_greeting_tree(r@.hardcoded[2], "!bye"@, CommandAction::Bye),
            is_greeting_tree(r@.hardcoded[3], "!gn"@, CommandAction::GoodNight),
            r@.configured.len() == config.commands@.len(),
            forall|i: int|
                0 <= i < config.commands@.len() ==> is_configured_tree(
                    #[trigger] r@.configured[i],
                    config.commands@[i].0@,
                    config.commands@[i].1@,
                    config.cooldown,
                ),
    {
        let mut reload_lits: Vec<String> = Vec::new();
        reload_lits.push("!reload".to_owned());
        let ghost reload_lits_snap = reload_lits;
        let reload_final = CommandNode::final_node(true, CommandAction::ReloadConfig);
        let ghost reload_final_snap = reload_final;
        let mut reload_children: Vec<CommandNode<CommandAction>> = Vec::new();
        reload_children.push(reload_final);
        let reload_root = CommandNode::literal(reload_lits, reload_children);
        proof {
            assert(reload_lits_snap.deep_view() =~= seq!["!reload"@]);
            assert(is_reload_root(reload_root));
        }
        let system = CommandTree::new(reload_root).with_authority(AuthorityLevel::Broadcaster);

        let mut hardcoded: Vec<CommandTree> = Vec::new();
        hardcoded.push(system);
        hardcoded.push(make_greeting_tree("!hello", CommandAction::Hello));
        hardcoded.push(make_greeting_tree("!bye", CommandAction::Bye));
        hardcoded.push(make_greeting_tree("!gn", CommandAction::GoodNight));

        let mut commands = Commands { configured: Vec::new(), hardcoded };
        commands.reload(config);
        commands
    }
}

} // verus!
