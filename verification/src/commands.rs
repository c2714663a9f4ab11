//! The command registry: every registered command tree, tried in order on
//! each dispatch request.

use vstd::prelude::*;

pub mod action;
pub mod authority;
pub mod init;
pub mod parse;
pub mod tree;

use self::action::{spec_into_action, CommandAction};
use self::authority::AuthorityLevel;
use self::tree::{
    call_outcome_matches, spec_tree_parse, tick_timers, CallOutcome, CommandTree, TreeModel,
};
use crate::action::{
    action_models, app_models, apps_of_action, apps_of_actions, lemma_apps_of_push, Action,
    ActionModel, AppAction,
};
use crate::model::Model;
use crate::tree::{spec_parse, ParseOutcome};

verus! {

/// One dispatch request: the raw message and the caller's authority.
#[derive(Debug, Clone, Copy)]
pub struct CommandCall<'a> {
    pub message: &'a str,
    pub authority: AuthorityLevel,
}

/// The registered commands: the configured set, rebuilt wholesale on each
/// reload, and the hardcoded set, fixed for the process lifetime.
pub struct Commands {
    /// Specified in the config and replaced on config reload.
    configured: Vec<CommandTree>,
    /// Hardcoded commands.
    hardcoded: Vec<CommandTree>,
}

/// The mathematical model of the registry: the models of its trees, in
/// dispatch order within each set.
pub struct CommandsModel {
    pub configured: Seq<TreeModel>,
    pub hardcoded: Seq<TreeModel>,
}

impl CommandsModel {
    /// Every tree, in dispatch order: configured first, then hardcoded.
    pub open spec fn all(self) -> Seq<TreeModel> {
        self.configured + self.hardcoded
    }
}

/// The models of a list of trees.
pub open spec fn tree_models(ts: Seq<CommandTree>) -> Seq<TreeModel> {
    ts.map_values(|t: CommandTree| t@)
}

impl View for Commands {
    type V = CommandsModel;

    closed spec fn view(&self) -> CommandsModel {
        CommandsModel {
            configured: tree_models(self.configured@),
            hardcoded: tree_models(self.hardcoded@),
        }
    }
}

/// Every tree after one tick of `delta` time units.
pub open spec fn tick_models(ts: Seq<TreeModel>, delta: u64) -> Seq<TreeModel> {
    Seq::new(ts.len(), |i: int| TreeModel { timers: tick_timers(ts[i].timers, delta), ..ts[i] })
}

/// The model of every tree after one dispatch of the given call.
pub open spec fn spec_dispatch_models(
    ts: Seq<TreeModel>,
    message: Seq<char>,
    authority: AuthorityLevel,
) -> Seq<TreeModel> {
    Seq::new(ts.len(), |i: int| spec_tree_parse(ts[i], message, authority).0)
}

/// The actions one tree contributes to a dispatch: one when it accepts the
/// call, none otherwise.
pub open spec fn step_actions(
    t: TreeModel,
    message: Seq<char>,
    authority: AuthorityLevel,
) -> Seq<ActionModel> {
    match spec_tree_parse(t, message, authority).1 {
        CallOutcome::Accepted(am) => seq![am],
        _ => Seq::empty(),
    }
}

/// Every action the trees collect for one dispatch, in tree order: every
/// successful match fires, not just the first.
pub open spec fn spec_dispatch_actions(
    ts: Seq<TreeModel>,
    message: Seq<char>,
    authority: AuthorityLevel,
) -> Seq<ActionModel>
    decreases ts.len(),
{
    if ts.len() == 0 {
        Seq::empty()
    } else {
        step_actions(ts[0], message, authority) + spec_dispatch_actions(
            ts.drop_first(),
            message,
            authority,
        )
    }
}

/// Dispatch actions extend one tree at a time at the back.
pub proof fn lemma_dispatch_actions_push(
    ts: Seq<TreeModel>,
    t: TreeModel,
    message: Seq<char>,
    authority: AuthorityLevel,
)
    ensures
        spec_dispatch_actions(ts.push(t), message, authority) == spec_dispatch_actions(
            ts,
            message,
            authority,
        ) + step_actions(t, message, authority),
    decreases ts.len(),
{
    if ts.len() == 0 {
        assert(ts.push(t)[0] == t);
        let tail = ts.push(t).drop_first();
        assert(tail =~= Seq::<TreeModel>::empty());
        assert(spec_dispatch_actions(tail, message, authority) =~= Seq::<ActionModel>::empty());
        assert(spec_dispatch_actions(ts.push(t), message, authority) == step_actions(
            t,
            message,
            authority,
        ) + spec_dispatch_actions(tail, message, authority));
        assert(spec_dispatch_actions(ts.push(t), message, authority) =~= step_actions(
            t,
            message,
            authority,
        ));
        assert(spec_dispatch_actions(ts, message, authority) =~= Seq::<ActionModel>::empty());
        assert(spec_dispatch_actions(ts, message, authority) + step_actions(t, message, authority)
            =~= step_actions(t, message, authority));
    } else {
        assert(ts.push(t)[0] == ts[0]);
        assert(ts.push(t).drop_first() =~= ts.drop_first().push(t));
        lemma_dispatch_actions_push(ts.drop_first(), t, message, authority);
        assert(spec_dispatch_actions(ts.push(t), message, authority) =~= spec_dispatch_actions(
            ts,
            message,
            authority,
        ) + step_actions(t, message, authority));
    }
}

/// The actions of the concatenation of two tree lists.
pub proof fn lemma_dispatch_actions_concat(
    a: Seq<TreeModel>,
    b: Seq<TreeModel>,
    message: Seq<char>,
    authority: AuthorityLevel,
)
    ensures
        spec_dispatch_actions(a + b, message, authority) == spec_dispatch_actions(
            a,
            message,
            authority,
        ) + spec_dispatch_actions(b, message, authority),
    decreases b.len(),
{
    if b.len() == 0 {
        assert(a + b =~= a);
        assert(spec_dispatch_actions(a, message, authority) + spec_dispatch_actions(
            b,
            message,
            authority,
        ) =~= spec_dispatch_actions(a, message, authority));
    } else {
        assert((a + b).drop_last() =~= a + b.drop_last());
        assert(a + b =~= (a + b.drop_last()).push(b.last()));
        lemma_dispatch_actions_concat(a, b.drop_last(), message, authority);
        lemma_dispatch_actions_push(a + b.drop_last(), b.last(), message, authority);
        assert(b.drop_last().push(b.last()) =~= b);
        lemma_dispatch_actions_push(b.drop_last(), b.last(), message, authority);
        assert(spec_dispatch_actions(a + b, message, authority) =~= spec_dispatch_actions(
            a,
            message,
            authority,
        ) + spec_dispatch_actions(b, message, authority));
    }
}

/// What one dispatch does to the whole registry: every tree is tried, every
/// accepted match contributes its action.
pub open spec fn spec_commands_dispatch(
    m: CommandsModel,
    message: Seq<char>,
    authority: AuthorityLevel,
) -> (CommandsModel, Seq<ActionModel>) {
    (
        CommandsModel {
            configured: spec_dispatch_models(m.configured, message, authority),
            hardcoded: spec_dispatch_models(m.hardcoded, message, authority),
        },
        spec_dispatch_actions(m.all(), message, authority),
    )
}

/// Advances the cooldown windows of every tree in the list.
fn update_trees(trees: &mut Vec<CommandTree>, delta_time: u64)
    ensures
        tree_models(final(trees)@) == tick_models(tree_models(old(trees)@), delta_time),
{
    let n = trees.len();
    let mut i: usize = 0;
    while i < n
        invariant
            i <= n,
            n == trees@.len(),
            trees@.len() == old(trees)@.len(),
            forall|j: int|
                i <= j < n ==> #[trigger] trees@[j] == old(trees)@[j],
            forall|j: int|
                0 <= j < i ==> #[trigger] trees@[j]@ == (TreeModel {
                    timers: tick_timers(old(trees)@[j]@.timers, delta_time),
                    ..old(trees)@[j]@
                }),
        decreases n - i,
    {
        trees[i].update(delta_time);
        i += 1;
    }
    proof {
        assert(tree_models(trees@) =~= tick_models(tree_models(old(trees)@), delta_time));
    }
}

impl Commands {
    /// Advances every command's cooldown windows by `delta_time`.
    pub fn update(&mut self, delta_time: u64)
        ensures
            final(self)@.configured == tick_models(old(self)@.configured, delta_time),
            final(self)@.hardcoded == tick_models(old(self)@.hardcoded, delta_time),
    {
        update_trees(&mut self.configured, delta_time);
        update_trees(&mut self.hardcoded, delta_time);
    }
}


/// No action in the list is a nested command call.
pub open spec fn plain_actions(acts: Seq<ActionModel>) -> bool {
    forall|i: int| 0 <= i < acts.len() ==> !((#[trigger] acts[i]) is HandleCommand)
}

/// A tree's accepted action is never a nested command call: marker
/// conversion only ever yields `ReloadConfig` or `Say`.
pub proof fn lemma_step_actions_plain(t: TreeModel, message: Seq<char>, authority: AuthorityLevel)
    ensures
        plain_actions(step_actions(t, message, authority)),
{
    match spec_parse(t.root, message, Seq::empty()) {
        ParseOutcome::Fail { .. } => {},
        ParseOutcome::Match { value, args } => {
            match value {
                CommandAction::ReloadConfig => {},
                CommandAction::Say(_) => {},
                CommandAction::Hello => {},
                CommandAction::Bye => {},
                CommandAction::GoodNight => {},
            }
        },
    }
}

/// No dispatched action is a nested command call.
pub proof fn lemma_dispatch_actions_plain(
    ts: Seq<TreeModel>,
    message: Seq<char>,
    authority: AuthorityLevel,
)
    ensures
        plain_actions(spec_dispatch_actions(ts, message, authority)),
    decreases ts.len(),
{
    if ts.len() > 0 {
        lemma_step_actions_plain(ts[0], message, authority);
        lemma_dispatch_actions_plain(ts.drop_first(), message, authority);
        let head = step_actions(ts[0], message, authority);
        let rest = spec_dispatch_actions(ts.drop_first(), message, authority);
        assert forall|i: int|
            0 <= i < spec_dispatch_actions(ts, message, authority).len() implies !((
        #[trigger] spec_dispatch_actions(ts, message, authority)[i]) is HandleCommand) by {
            if i < head.len() {
                assert(spec_dispatch_actions(ts, message, authority)[i] == head[i]);
            } else {
                assert(spec_dispatch_actions(ts, message, authority)[i] == rest[i - head.len()]);
            }
        }
    }
}

/// Tries every tree of the list, in order, on one call: each tree advances
/// by its own outcome, and every accepted action is appended.
fn dispatch_trees(trees: &mut Vec<CommandTree>, call: CommandCall<'_>, actions: &mut Vec<Action>)
    ensures
        tree_models(final(trees)@) == spec_dispatch_models(
            tree_models(old(trees)@),
            call.message@,
            call.authority,
        ),
        action_models(final(actions)@) == action_models(old(actions)@) + spec_dispatch_actions(
            tree_models(old(trees)@),
            call.message@,
            call.authority,
        ),
{
    let ghost pre = tree_models(old(trees)@);
    let ghost pre_actions = action_models(old(actions)@);
    let n = trees.len();
    let mut i: usize = 0;
    proof {
        assert(action_models(actions@) =~= pre_actions + spec_dispatch_actions(
            pre.take(0),
            call.message@,
            call.authority,
        ));
    }
    while i < n
        invariant
            i <= n,
            n == trees@.len(),
            trees@.len() == old(trees)@.len(),
            pre == tree_models(old(trees)@),
            pre_actions == action_models(old(actions)@),
            forall|j: int| i <= j < n ==> #[trigger] trees@[j] == old(trees)@[j],
            forall|j: int|
                0 <= j < i ==> #[trigger] trees@[j]@ == spec_tree_parse(
                    pre[j],
                    call.message@,
                    call.authority,
                ).0,
            action_models(actions@) == pre_actions + spec_dispatch_actions(
                pre.take(i as int),
                call.message@,
                call.authority,
            ),
        decreases n - i,
    {
        let ghost pre_acts_here = action_models(actions@);
        proof {
            assert(trees@[i as int]@ == pre[i as int]);
            assert(pre.take(i + 1).drop_last() =~= pre.take(i as int));
            assert(pre.take(i + 1) =~= pre.take(i as int).push(pre[i as int]));
            lemma_dispatch_actions_push(
                pre.take(i as int),
                pre[i as int],
                call.message@,
                call.authority,
            );
        }
        let res = trees[i].parse(call);
        match res {
            Ok(action) => {
                proof {
                    assert(call_outcome_matches(
                        spec_tree_parse(pre[i as int], call.message@, call.authority).1,
                        Ok::<Action, parse::CommandParseError>(action),
                    ));
                    assert(step_actions(pre[i as int], call.message@, call.authority)
                        =~= seq![action@]);
                }
                actions.push(action);
                proof {
                    assert(action_models(actions@) =~= pre_acts_here + seq![action@]);
                    assert(action_models(actions@) =~= pre_actions + spec_dispatch_actions(
                        pre.take(i + 1),
                        call.message@,
                        call.authority,
                    ));
                }
            },
            Err(_) => {
                proof {
                    assert(step_actions(pre[i as int], call.message@, call.authority)
                        =~= Seq::<ActionModel>::empty());
                    assert(action_models(actions@) =~= pre_actions + spec_dispatch_actions(
                        pre.take(i + 1),
                        call.message@,
                        call.authority,
                    ));
                }
            },
        }
        i += 1;
    }
    proof {
        assert(pre.take(n as int) =~= pre);
        assert(tree_models(trees@) =~= spec_dispatch_models(pre, call.message@, call.authority));
    }
}

impl Model {
    /// Dispatches one call against every registered command, collecting the
    /// host actions of every tree that accepts it — every successful match
    /// fires, not just the first. Trees that reject the call are skipped,
    /// and a call matching no tree yields no actions; neither is an error.
    pub fn handle_command_call(&mut self, call: CommandCall<'_>) -> (r: Vec<AppAction>)
        ensures
            final(self).running == old(self).running,
            final(self).chat == old(self).chat,
            final(self).commands@ == spec_commands_dispatch(
                old(self).commands@,
                call.message@,
                call.authority,
            ).0,
            app_models(r@) == apps_of_actions(
                spec_commands_dispatch(old(self).commands@, call.message@, call.authority).1,
            ),
        decreases 2int,
    {
        let ghost pre = self.commands@;
        let ghost msg = call.message@;
        let ghost auth = call.authority;
        let mut actions: Vec<Action> = Vec::new();
        proof {
            assert(action_models(actions@) =~= Seq::<ActionModel>::empty());
        }
        dispatch_trees(&mut self.commands.configured, call, &mut actions);
        dispatch_trees(&mut self.commands.hardcoded, call, &mut actions);
        let ghost acts = spec_dispatch_actions(pre.configured + pre.hardcoded, msg, auth);
        proof {
            lemma_dispatch_actions_concat(pre.configured, pre.hardcoded, msg, auth);
            lemma_dispatch_actions_plain(pre.configured + pre.hardcoded, msg, auth);
            assert(action_models(actions@) =~= acts);
        }

        let mut app_actions: Vec<AppAction> = Vec::new();
        let mut actions = actions;
        let ghost mut k: int = 0;
        proof {
            assert(app_models(app_actions@) =~= apps_of_actions(acts.take(0)));
            assert(action_models(actions@) =~= acts.skip(0));
        }
        while actions.len() > 0
            invariant
                0 <= k <= acts.len(),
                k == acts.len() - actions@.len(),
                plain_actions(acts),
                action_models(actions@) == acts.skip(k),
                self.running == old(self).running,
                self.chat == old(self).chat,
                self.commands@ == spec_commands_dispatch(pre, msg, auth).0,
                app_models(app_actions@) == apps_of_actions(acts.take(k)),
            decreases actions@.len(),
        {
            let ghost pre_apps = app_models(app_actions@);
            let ghost pre_list = actions@;
            let action = actions.remove(0);
            proof {
                assert forall|j: int| 0 <= j < actions@.len() implies action_models(actions@)[j]
                    == acts.skip(k + 1)[j] by {
                    assert(actions@[j] == pre_list[j + 1]);
                    assert(action_models(pre_list)[j + 1] == acts.skip(k)[j + 1]);
                    assert(acts.skip(k)[j + 1] == acts[k + 1 + j]);
                }
                assert(action_models(actions@) =~= acts.skip(k + 1));
                assert(action@ == acts.skip(k)[0]);
                assert(action@ == acts[k]);
                assert(!(acts[k] is HandleCommand));
                match action {
                    Action::HandleCommand { .. } => {
                        assert(action@ is HandleCommand);
                        assert(false);
                    },
                    _ => {},
                }
                assert(acts.take(k + 1).drop_last() =~= acts.take(k));
                assert(acts.take(k + 1) =~= acts.take(k).push(acts[k]));
                lemma_apps_of_push(acts.take(k), acts[k]);
            }
            let mut more = self.execute(action);
            app_actions.append(&mut more);
            proof {
                k = k + 1;
                assert(app_models(app_actions@) =~= apps_of_actions(acts.take(k)));
            }
        }
        proof {
            assert(acts.take(acts.len() as int) =~= acts);
        }
        app_actions
    }
}

} // verus!
