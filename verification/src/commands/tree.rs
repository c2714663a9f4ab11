//! One command: a grammar root gated by an authority threshold and a
//! per-argument cooldown window.

use vstd::prelude::*;

use crate::action::{Action, ActionModel};
use crate::commands::action::{spec_into_action, CommandAction};
use crate::commands::authority::AuthorityLevel;
use crate::commands::parse::{ArgsError, CallError, CommandParseError};
use crate::commands::CommandCall;
use crate::text::str_eq;
use crate::tree::{clone_args, spec_parse, CommandNode, ParseOutcome};

verus! {

/// One registered command. Time is measured in abstract non-negative units
/// (the host application feeds deltas in the same unit it configured the
/// cooldowns in, e.g. milliseconds).
#[derive(Debug)]
pub struct CommandTree {
    root: CommandNode<CommandAction>,
    authority_level: AuthorityLevel,
    /// Command cooldown, in time units.
    cooldown: u64,
    /// Remaining cooldown per captured argument tuple.
    cooldown_timers: Vec<(Vec<String>, u64)>,
}

/// The mathematical model of a command tree: its grammar, its gates, and the
/// cooldown map from argument tuples to remaining time.
pub struct TreeModel {
    pub root: CommandNode<CommandAction>,
    pub authority_level: AuthorityLevel,
    pub cooldown: u64,
    pub timers: Map<Seq<Seq<char>>, u64>,
}

/// What one dispatch request to a single tree yields.
pub enum CallOutcome {
    /// The grammar matched and the call was converted into an action.
    Accepted(ActionModel),
    /// The grammar did not match; the payload is the arguments captured up
    /// to the failure point. This is the expected "not this command" case.
    NoParse(Seq<Seq<char>>),
    /// The caller's authority is below the tree's threshold.
    Unauthorized,
    /// The captured argument tuple is still cooling down.
    OnCooldown,
    /// The number of captured arguments does not fit the marker.
    Rejected(ArgsError),
}

/// The cooldown map an association list holds: later entries win, though the
/// list is kept free of duplicate keys.
pub open spec fn timers_map(s: Seq<(Vec<String>, u64)>) -> Map<Seq<Seq<char>>, u64>
    decreases s.len(),
{
    if s.len() == 0 {
        Map::empty()
    } else {
        timers_map(s.drop_last()).insert(s.last().0.deep_view(), s.last().1)
    }
}

/// No two entries share a key.
pub open spec fn timer_keys_unique(s: Seq<(Vec<String>, u64)>) -> bool {
    forall|i: int, j: int|
        0 <= i < j < s.len() ==> #[trigger] s[i].0.deep_view() != #[trigger] s[j].0.deep_view()
}

/// The keys of the association list's map are exactly the keys of its
/// entries.
pub proof fn lemma_timers_map_domain(s: Seq<(Vec<String>, u64)>, k: Seq<Seq<char>>)
    ensures
        timers_map(s).contains_key(k) <==> exists|i: int|
            0 <= i < s.len() && #[trigger] s[i].0.deep_view() == k,
    decreases s.len(),
{
    if s.len() > 0 {
        lemma_timers_map_domain(s.drop_last(), k);
        if s.last().0.deep_view() == k {
            assert(s[s.len() - 1].0.deep_view() == k);
        } else if timers_map(s).contains_key(k) {
            let i = choose|i: int|
                0 <= i < s.drop_last().len() && #[trigger] s.drop_last()[i].0.deep_view() == k;
            assert(s[i].0.deep_view() == k);
        } else {
            assert forall|i: int| 0 <= i < s.len() implies #[trigger] s[i].0.deep_view() != k by {
                if i < s.len() - 1 {
                    assert(s.drop_last()[i].0.deep_view() == s[i].0.deep_view());
                }
            }
        }
    }
}

/// Appending an entry inserts its key into the map.
pub proof fn lemma_timers_map_push(s: Seq<(Vec<String>, u64)>, key: Vec<String>, t: u64)
    ensures
        timers_map(s.push((key, t))) == timers_map(s).insert(key.deep_view(), t),
{
    assert(s.push((key, t)).drop_last() =~= s);
    assert(s.push((key, t)).last() == (key, t));
}

/// The cooldown map after one tick of `delta` time units: every remaining
/// time is reduced by `delta`, and entries that reach zero are evicted.
pub open spec fn tick_timers(m: Map<Seq<Seq<char>>, u64>, delta: u64) -> Map<Seq<Seq<char>>, u64> {
    Map::new(
        |k: Seq<Seq<char>>| m.contains_key(k) && m[k] > delta,
        |k: Seq<Seq<char>>| (m[k] - delta) as u64,
    )
}

/// What one dispatch request does to one tree: the checks run in order —
/// grammar, authority, cooldown — and only then is the argument tuple put on
/// cooldown and the marker converted, so a rejected caller never starts a
/// cooldown window, while an arity error does.
pub open spec fn spec_tree_parse(
    m: TreeModel,
    message: Seq<char>,
    authority: AuthorityLevel,
) -> (TreeModel, CallOutcome) {
    match spec_parse(m.root, message, Seq::empty()) {
        ParseOutcome::Fail { args } => (m, CallOutcome::NoParse(args)),
        ParseOutcome::Match { value, args } => {
            if authority.spec_rank() < m.authority_level.spec_rank() {
                (m, CallOutcome::Unauthorized)
            } else if m.timers.contains_key(args) {
                (m, CallOutcome::OnCooldown)
            } else {
                let m2 = TreeModel { timers: m.timers.insert(args, m.cooldown), ..m };
                match spec_into_action(value, args) {
                    Ok(am) => (m2, CallOutcome::Accepted(am)),
                    Err(e) => (m2, CallOutcome::Rejected(e)),
                }
            }
        },
    }
}

/// How an executable result realizes a call outcome of the model.
pub open spec fn call_outcome_matches(o: CallOutcome, r: Result<Action, CommandParseError>) -> bool {
    match o {
        CallOutcome::Accepted(am) => r matches Ok(a) && a@ == am,
        CallOutcome::NoParse(args) => r matches Err(CommandParseError::Parse(pe))
            && pe.parsed.deep_view() == args,
        CallOutcome::Unauthorized => r matches Err(
            CommandParseError::Call(CallError::Unauthorized),
        ),
        CallOutcome::OnCooldown => r matches Err(CommandParseError::Call(CallError::OnCooldown)),
        CallOutcome::Rejected(e) => r matches Err(CommandParseError::Args(e2)) && e2 == e,
    }
}

/// Whether two argument tuples hold the same strings.
fn args_eq(a: &Vec<String>, b: &Vec<String>) -> (r: bool)
    ensures
        r == (a.deep_view() == b.deep_view()),
{
    if a.len() != b.len() {
        proof {
            assert(a.deep_view().len() != b.deep_view().len());
        }
        return false;
    }
    let mut i: usize = 0;
    while i < a.len()
        invariant
            i <= a@.len(),
            a@.len() == b@.len(),
            forall|k: int| 0 <= k < i ==> a.deep_view()[k] == b.deep_view()[k],
        decreases a@.len() - i,
    {
        if !str_eq(a[i].as_str(), b[i].as_str()) {
            proof {
                assert(a.deep_view()[i as int] != b.deep_view()[i as int]);
            }
            return false;
        }
        i += 1;
    }
    proof {
        assert(a.deep_view() =~= b.deep_view());
    }
    true
}

/// Whether the cooldown map holds the given argument tuple.
fn timers_contains(timers: &Vec<(Vec<String>, u64)>, key: &Vec<String>) -> (r: bool)
    ensures
        r == timers_map(timers@).contains_key(key.deep_view()),
{
    let mut i: usize = 0;
    while i < timers.len()
        invariant
            i <= timers@.len(),
            forall|k: int| 0 <= k < i ==> #[trigger] timers@[k].0.deep_view() != key.deep_view(),
        decreases timers@.len() - i,
    {
        if args_eq(&timers[i].0, key) {
            proof {
                lemma_timers_map_domain(timers@, key.deep_view());
            }
            return true;
        }
        i += 1;
    }
    proof {
        lemma_timers_map_domain(timers@, key.deep_view());
    }
    false
}

impl View for CommandTree {
    type V = TreeModel;

    closed spec fn view(&self) -> TreeModel {
        TreeModel {
            root: self.root,
            authority_level: self.authority_level,
            cooldown: self.cooldown,
            timers: timers_map(self.cooldown_timers@),
        }
    }
}

impl CommandTree {
    /// The cooldown map never holds two entries for one argument tuple.
    #[verifier::type_invariant]
    spec fn timers_wf(self) -> bool {
        timer_keys_unique(self.cooldown_timers@)
    }

    /// A command with the given grammar, open to every caller, with no
    /// cooldown.
    pub fn new(root: CommandNode<CommandAction>) -> (r: Self)
        ensures
            r@ == (TreeModel {
                root,
                authority_level: AuthorityLevel::Viewer,
                cooldown: 0,
                timers: Map::empty(),
            }),
    {
        let r = CommandTree {
            root,
            authority_level: AuthorityLevel::Viewer,
            cooldown: 0,
            cooldown_timers: Vec::new(),
        };
        proof {
            assert(r@.timers =~= Map::<Seq<Seq<char>>, u64>::empty());
        }
        r
    }

    /// The same command with the given cooldown, in time units.
    pub fn with_cooldown(self, cooldown: u64) -> (r: Self)
        ensures
            r@ == (TreeModel { cooldown, ..self@ }),
    {
        proof {
            use_type_invariant(&self);
        }
        let CommandTree { root, authority_level, cooldown: _, cooldown_timers } = self;
        CommandTree { root, authority_level, cooldown, cooldown_timers }
    }

    /// The same command open only to callers of at least the given tier.
    pub fn with_authority(self, level: AuthorityLevel) -> (r: Self)
        ensures
            r@ == (TreeModel { authority_level: level, ..self@ }),
    {
        proof {
            use_type_invariant(&self);
        }
        let CommandTree { root, authority_level: _, cooldown, cooldown_timers } = self;
        CommandTree { root, authority_level: level, cooldown, cooldown_timers }
    }

    /// Advances every cooldown window by `delta_time` and evicts the expired
    /// ones.
    pub fn update(&mut self, delta_time: u64)
        ensures
            final(self)@ == (TreeModel {
                timers: tick_timers(old(self)@.timers, delta_time),
                ..old(self)@
            }),
    {
        proof {
            use_type_invariant(&*self);
        }
        let mut remaining: Vec<(Vec<String>, u64)> = Vec::new();
        core::mem::swap(&mut remaining, &mut self.cooldown_timers);
        let ghost orig = remaining@;
        let mut kept: Vec<(Vec<String>, u64)> = Vec::new();
        let ghost mut done: int = 0;
        proof {
            assert(orig.skip(0) =~= orig);
            assert(timers_map(kept@) =~= tick_timers(timers_map(orig.take(0)), delta_time));
        }
        while remaining.len() > 0
            invariant
                timer_keys_unique(orig),
                done == orig.len() - remaining@.len(),
                0 <= done <= orig.len(),
                remaining@ == orig.skip(done),
                timer_keys_unique(kept@),
                forall|j: int|
                    0 <= j < kept@.len() ==> exists|i2: int|
                        0 <= i2 < done && #[trigger] kept@[j].0.deep_view() == orig[i2].0.deep_view(),
                timers_map(kept@) == tick_timers(timers_map(orig.take(done)), delta_time),
            decreases remaining@.len(),
        {
            let ghost pre_kept = kept@;
            let (key, t) = remaining.remove(0);
            proof {
                assert(orig.skip(done)[0] == orig[done]);
                assert(remaining@ =~= orig.skip(done + 1));
                assert(orig.take(done + 1).drop_last() =~= orig.take(done));
                assert(orig.take(done + 1).last() == orig[done]);
            }
            if t > delta_time {
                proof {
                    // The new key is fresh among the kept ones: it comes from
                    // position `done`, and every kept key comes from an
                    // earlier position.
                    assert forall|j: int| 0 <= j < kept@.len() implies #[trigger] kept@[j].0
                        .deep_view() != key.deep_view() by {
                        let i2 = choose|i2: int|
                            0 <= i2 < done && #[trigger] kept@[j].0.deep_view()
                                == orig[i2].0.deep_view();
                        assert(orig[i2].0.deep_view() != orig[done].0.deep_view());
                    }
                }
                kept.push((key, t - delta_time));
                proof {
                    lemma_timers_map_push(pre_kept, kept@.last().0, kept@.last().1);
                    assert(kept@.drop_last() =~= pre_kept);
                    assert(timers_map(kept@) =~= tick_timers(
                        timers_map(orig.take(done + 1)),
                        delta_time,
                    ));
                    assert forall|j: int| 0 <= j < kept@.len() implies exists|i2: int|
                        0 <= i2 < done + 1 && #[trigger] kept@[j].0.deep_view()
                            == orig[i2].0.deep_view() by {
                        if j < kept@.len() - 1 {
                            let i2 = choose|i2: int|
                                0 <= i2 < done && #[trigger] pre_kept[j].0.deep_view()
                                    == orig[i2].0.deep_view();
                            assert(kept@[j].0.deep_view() == orig[i2].0.deep_view());
                        } else {
                            assert(kept@[j].0.deep_view() == orig[done].0.deep_view());
                        }
                    }
                }
            } else {
                proof {
                    // The dropped key is absent from the earlier entries, so
                    // evicting it changes nothing in the ticked map.
                    lemma_timers_map_domain(orig.take(done), key.deep_view());
                    assert forall|i2: int| 0 <= i2 < done implies #[trigger] orig.take(
                        done,
                    )[i2].0.deep_view() != key.deep_view() by {
                        assert(orig.take(done)[i2].0.deep_view() == orig[i2].0.deep_view());
                        assert(orig[i2].0.deep_view() != orig[done].0.deep_view());
                    }
                    assert(timers_map(kept@) =~= tick_timers(
                        timers_map(orig.take(done + 1)),
                        delta_time,
                    ));
                }
            }
            proof {
                done = done + 1;
            }
        }
        proof {
            assert(orig.take(orig.len() as int) =~= orig);
        }
        self.cooldown_timers = kept;
        proof {
            assert(self@.timers =~= tick_timers(old(self)@.timers, delta_time));
        }
    }

    /// Evaluates one dispatch request: matches the grammar, checks the
    /// caller's authority, checks and starts the cooldown window, and
    /// converts the matched marker into a domain action.
    pub fn parse(&mut self, call: CommandCall<'_>) -> (r: Result<Action, CommandParseError>)
        ensures
            final(self)@ == spec_tree_parse(old(self)@, call.message@, call.authority).0,
            call_outcome_matches(spec_tree_parse(old(self)@, call.message@, call.authority).1, r),
    {
        proof {
            use_type_invariant(&*self);
        }
        // Grammar
        let parsed = match self.root.parse(call.message) {
            Err(pe) => {
                return Err(CommandParseError::Parse(pe));
            },
            Ok(p) => p,
        };
        // Authority, before cooldown: a rejected caller must not start or
        // reset a cooldown window.
        if call.authority.rank() < self.authority_level.rank() {
            return Err(CommandParseError::Call(CallError::Unauthorized));
        }
        // Cooldown
        if timers_contains(&self.cooldown_timers, &parsed.arguments) {
            return Err(CommandParseError::Call(CallError::OnCooldown));
        }
        // Start the window, even at cooldown zero: it dedupes within a tick.
        let key = clone_args(&parsed.arguments);
        let ghost pre = self.cooldown_timers@;
        let mut timers: Vec<(Vec<String>, u64)> = Vec::new();
        core::mem::swap(&mut timers, &mut self.cooldown_timers);
        timers.push((key, self.cooldown));
        proof {
            lemma_timers_map_push(pre, timers@.last().0, timers@.last().1);
            assert(timers@.drop_last() =~= pre);
            lemma_timers_map_domain(pre, parsed.arguments.deep_view());
            assert forall|i: int, j: int| 0 <= i < j < timers@.len() implies #[trigger] timers@[i].0
                .deep_view() != #[trigger] timers@[j].0.deep_view() by {
                if j < timers@.len() - 1 {
                    assert(pre[i].0.deep_view() != pre[j].0.deep_view());
                }
            }
        }
        self.cooldown_timers = timers;
        // Conversion performs its own arity check.
        match parsed.value.into_action(parsed.arguments) {
            Ok(action) => Ok(action),
            Err(e) => Err(CommandParseError::Args(e)),
        }
    }
}

} // verus!
