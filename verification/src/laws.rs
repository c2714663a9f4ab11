//! The laws of the dispatch layer, stated and proved over the models that
//! the executable functions are verified against.

use vstd::prelude::*;

use crate::action::ActionModel;
use crate::commands::authority::AuthorityLevel;
use crate::commands::tree::{spec_tree_parse, tick_timers, CallOutcome, TreeModel};
use crate::commands::{spec_dispatch_actions, step_actions};
use crate::text::{
    all_ws, lemma_prefix_ws_tail, lemma_trim_ws_tail, lemma_word_len_ws_tail, word_len, ws_free,
};
use crate::tree::{
    spec_first_prefix, spec_parse, spec_rest, spec_token, ArgumentType, CommandNode, ParseOutcome,
};

verus! {

/// Cooldown: once a call is accepted, an immediately repeated call whose
/// grammar captures the same argument tuple is rejected with `OnCooldown`;
/// after a tick of at least the tree's cooldown, the same call is accepted
/// again, with the same action.
pub proof fn lemma_cooldown_round(
    t: TreeModel,
    message: Seq<char>,
    authority: AuthorityLevel,
    delta: u64,
)
    requires
        spec_tree_parse(t, message, authority).1 is Accepted,
        delta >= t.cooldown,
    ensures
        spec_tree_parse(spec_tree_parse(t, message, authority).0, message, authority).1
            is OnCooldown,
        spec_tree_parse(
            TreeModel {
                timers: tick_timers(spec_tree_parse(t, message, authority).0.timers, delta),
                ..spec_tree_parse(t, message, authority).0
            },
            message,
            authority,
        ).1 == spec_tree_parse(t, message, authority).1,
{
    let t1 = spec_tree_parse(t, message, authority).0;
    match spec_parse(t.root, message, Seq::<Seq<char>>::empty()) {
        ParseOutcome::Fail { .. } => {},
        ParseOutcome::Match { value, args } => {
            assert(t1.timers == t.timers.insert(args, t.cooldown));
            assert(t1.timers.contains_key(args));
            let t2 = TreeModel { timers: tick_timers(t1.timers, delta), ..t1 };
            assert(t1.timers[args] == t.cooldown);
            assert(!t2.timers.contains_key(args));
        },
    }
}

/// Authority precedence: a caller below the tree's threshold is always
/// rejected with `Unauthorized`, the cooldown map is untouched, and a later
/// call — by anyone — behaves exactly as if the rejected call had never
/// happened.
pub proof fn lemma_authority_precedence(
    t: TreeModel,
    message: Seq<char>,
    authority: AuthorityLevel,
    later_message: Seq<char>,
    later_authority: AuthorityLevel,
)
    requires
        authority.spec_rank() < t.authority_level.spec_rank(),
        spec_parse(t.root, message, Seq::<Seq<char>>::empty()) is Match,
    ensures
        spec_tree_parse(t, message, authority).1 is Unauthorized,
        spec_tree_parse(t, message, authority).0 == t,
        spec_tree_parse(spec_tree_parse(t, message, authority).0, later_message, later_authority)
            == spec_tree_parse(t, later_message, later_authority),
{
}

/// Multi-fire: dispatch collects one action from every tree that accepts
/// the call, not just the first; in particular a registry of two trees that
/// both accept one message fires twice.
pub proof fn lemma_dispatch_every_match_fires(
    ts: Seq<TreeModel>,
    message: Seq<char>,
    authority: AuthorityLevel,
)
    ensures
        spec_dispatch_actions(ts, message, authority).len() == accepted_count(
            ts,
            message,
            authority,
        ),
    decreases ts.len(),
{
    if ts.len() > 0 {
        lemma_dispatch_every_match_fires(ts.drop_first(), message, authority);
    }
}

/// How many trees of the list accept the call.
pub open spec fn accepted_count(
    ts: Seq<TreeModel>,
    message: Seq<char>,
    authority: AuthorityLevel,
) -> nat
    decreases ts.len(),
{
    if ts.len() == 0 {
        0
    } else {
        (if spec_tree_parse(ts[0], message, authority).1 is Accepted {
            1nat
        } else {
            0nat
        }) + accepted_count(ts.drop_first(), message, authority)
    }
}

/// The two-tree instance of multi-fire: both trees accept, so one dispatch
/// yields both actions, in order.
pub proof fn lemma_two_matches_both_fire(
    ts: Seq<TreeModel>,
    message: Seq<char>,
    authority: AuthorityLevel,
    a0: ActionModel,
    a1: ActionModel,
)
    requires
        ts.len() == 2,
        spec_tree_parse(ts[0], message, authority).1 == CallOutcome::Accepted(a0),
        spec_tree_parse(ts[1], message, authority).1 == CallOutcome::Accepted(a1),
    ensures
        spec_dispatch_actions(ts, message, authority) == seq![a0, a1],
{
    let rest = ts.drop_first();
    assert(rest[0] == ts[1]);
    assert(rest.drop_first() =~= Seq::<TreeModel>::empty());
    assert(spec_dispatch_actions(rest.drop_first(), message, authority)
        =~= Seq::<ActionModel>::empty());
    assert(spec_dispatch_actions(rest, message, authority) =~= step_actions(
        ts[1],
        message,
        authority,
    ));
    assert(spec_dispatch_actions(ts, message, authority) =~= seq![a0, a1]);
}

/// Arity is deferred: a call whose grammar matches but whose captured
/// argument count does not fit the marker passes the grammar layer, starts
/// its cooldown window, and only then surfaces the arity error from the
/// conversion step.
pub proof fn lemma_arity_deferred(t: TreeModel, message: Seq<char>, authority: AuthorityLevel)
    requires
        spec_parse(t.root, message, Seq::<Seq<char>>::empty()) is Match,
        authority.spec_rank() >= t.authority_level.spec_rank(),
        !t.timers.contains_key(spec_parse(t.root, message, Seq::<Seq<char>>::empty())->Match_args),
        crate::commands::action::spec_into_action(
            spec_parse(t.root, message, Seq::<Seq<char>>::empty())->Match_value,
            spec_parse(t.root, message, Seq::<Seq<char>>::empty())->Match_args,
        ) is Err,
    ensures
        spec_tree_parse(t, message, authority).1 == CallOutcome::Rejected(
            crate::commands::action::spec_into_action(
                spec_parse(t.root, message, Seq::<Seq<char>>::empty())->Match_value,
                spec_parse(t.root, message, Seq::<Seq<char>>::empty())->Match_args,
            )->Err_0,
        ),
        spec_tree_parse(t, message, authority).0.timers == t.timers.insert(
            spec_parse(t.root, message, Seq::<Seq<char>>::empty())->Match_args,
            t.cooldown,
        ),
{
}


/// Every candidate is free of whitespace.
pub open spec fn ws_free_all(cands: Seq<Seq<char>>) -> bool {
    forall|i: int| 0 <= i < cands.len() ==> ws_free(#[trigger] cands[i])
}

/// Whether the way a node extracts its own token ignores trailing
/// whitespace: its literals hold no whitespace, its argument kind is `Word`,
/// or it is terminal. Nothing is asked of the children: the matcher trims
/// the remainder before they see it.
pub open spec fn root_ws_insensitive<T: Clone>(node: CommandNode<T>) -> bool {
    match node {
        CommandNode::Literal { literals, .. } => ws_free_all(literals.deep_view()),
        CommandNode::ArgumentChoice { choices, .. } => ws_free_all(choices.deep_view()),
        CommandNode::Argument { argument_type, .. } => argument_type == ArgumentType::Word,
        CommandNode::Final { .. } => true,
    }
}

/// A whitespace suffix does not change which whitespace-free candidate
/// matches first.
proof fn lemma_first_prefix_ws_tail(cands: Seq<Seq<char>>, message: Seq<char>, tail: Seq<char>)
    requires
        all_ws(tail),
        ws_free_all(cands),
    ensures
        spec_first_prefix(cands, message + tail) == spec_first_prefix(cands, message),
    decreases cands.len(),
{
    if cands.len() > 0 {
        lemma_prefix_ws_tail(cands[0], message, tail);
        assert forall|i: int| 0 <= i < cands.drop_first().len() implies ws_free(
            #[trigger] cands.drop_first()[i],
        ) by {
            assert(cands.drop_first()[i] == cands[i + 1]);
        }
        lemma_first_prefix_ws_tail(cands.drop_first(), message, tail);
    }
}

/// Whitespace idempotence: trailing whitespace on the message never changes
/// what a tree parses, provided the root's own token extraction is
/// whitespace-insensitive. Deeper nodes need no condition at all: after
/// every matched token the matcher trims the remainder, which swallows the
/// trailing whitespace before any child sees it.
pub proof fn lemma_trailing_ws_irrelevant<T: Clone>(
    node: CommandNode<T>,
    message: Seq<char>,
    tail: Seq<char>,
    acc: Seq<Seq<char>>,
)
    requires
        all_ws(tail),
        root_ws_insensitive(node),
    ensures
        spec_parse(node, message + tail, acc) == spec_parse(node, message, acc),
{
    match node {
        CommandNode::Literal { literals, child_nodes } => {
            lemma_first_prefix_ws_tail(literals.deep_view(), message, tail);
            match spec_first_prefix(literals.deep_view(), message) {
                None => {},
                Some(i) => {
                    crate::tree::lemma_first_prefix_props(literals.deep_view(), message);
                    let l = literals.deep_view()[i].len() as int;
                    assert((message + tail).skip(l) =~= message.skip(l) + tail);
                    lemma_trim_ws_tail(message.skip(l), tail);
                    assert(spec_rest(message + tail, l as nat) == spec_rest(message, l as nat));
                },
            }
        },
        CommandNode::ArgumentChoice { choices, child_nodes } => {
            lemma_first_prefix_ws_tail(choices.deep_view(), message, tail);
            match spec_first_prefix(choices.deep_view(), message) {
                None => {},
                Some(i) => {
                    crate::tree::lemma_first_prefix_props(choices.deep_view(), message);
                    let l = choices.deep_view()[i].len() as int;
                    assert((message + tail).skip(l) =~= message.skip(l) + tail);
                    lemma_trim_ws_tail(message.skip(l), tail);
                    assert(spec_rest(message + tail, l as nat) == spec_rest(message, l as nat));
                },
            }
        },
        CommandNode::Argument { argument_type, child_nodes } => {
            lemma_word_len_ws_tail(message, tail);
            crate::text::lemma_run_len_props(message, |c: char| !crate::text::is_space_char(c));
            let wl = word_len(message) as int;
            if wl > 0 {
                assert((message + tail).take(wl) =~= message.take(wl));
                assert(spec_token(argument_type, message + tail) == spec_token(
                    argument_type,
                    message,
                ));
                assert((message + tail).skip(wl) =~= message.skip(wl) + tail);
                lemma_trim_ws_tail(message.skip(wl), tail);
                assert(spec_rest(message + tail, wl as nat) == spec_rest(message, wl as nat));
            }
        },
        CommandNode::Final { expects_empty_message, value } => {
            lemma_trim_ws_tail(message, tail);
        },
    }
}


/// Cooldown gates by captured arguments: while a tuple's window runs, any
/// call whose grammar captures the same tuple is rejected with `OnCooldown`,
/// whatever its message text and whoever (authorized) makes it.
pub proof fn lemma_cooldown_blocks_same_arguments(
    t: TreeModel,
    first_message: Seq<char>,
    first_authority: AuthorityLevel,
    second_message: Seq<char>,
    second_authority: AuthorityLevel,
)
    requires
        spec_tree_parse(t, first_message, first_authority).1 is Accepted || spec_tree_parse(
            t,
            first_message,
            first_authority,
        ).1 is Rejected,
        spec_parse(t.root, second_message, Seq::<Seq<char>>::empty()) is Match,
        spec_parse(t.root, second_message, Seq::<Seq<char>>::empty())->Match_args == spec_parse(
            t.root,
            first_message,
            Seq::<Seq<char>>::empty(),
        )->Match_args,
        second_authority.spec_rank() >= t.authority_level.spec_rank(),
    ensures
        spec_tree_parse(
            spec_tree_parse(t, first_message, first_authority).0,
            second_message,
            second_authority,
        ).1 is OnCooldown,
{
}

} // verus!
