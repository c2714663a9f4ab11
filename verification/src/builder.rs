//! A fluent helper for building deep (list-like) command trees.
//!
//! The builder accumulates wrapper nodes in calling order and folds them
//! right-to-left when the chain is closed: the last-appended wrapper becomes
//! the immediate parent of the terminal, the first-appended one the root.

use vstd::prelude::*;

use crate::tree::{ArgumentType, CommandNode};

verus! {

/// Helps to create trees of [`CommandNode`] concisely. Most helper functions
/// build 1-wide chains; `split` attaches several pre-built subtrees where
/// sibling commands share a common prefix.
pub struct CommandBuilder<T: Clone> {
    nodes: Vec<CommandNode<T>>,
}

/// `r` is `parent` with `child` appended to its children; a `Final` node
/// accepts no child.
pub open spec fn spec_attached<T: Clone>(
    parent: CommandNode<T>,
    child: CommandNode<T>,
    r: CommandNode<T>,
) -> bool {
    match parent {
        CommandNode::Literal { literals, child_nodes } => r matches CommandNode::Literal {
            literals: rl,
            child_nodes: rc,
        } && rl == literals && rc@ == child_nodes@.push(child),
        CommandNode::Argument { argument_type, child_nodes } => r matches CommandNode::Argument {
            argument_type: ra,
            child_nodes: rc,
        } && ra == argument_type && rc@ == child_nodes@.push(child),
        CommandNode::ArgumentChoice { choices, child_nodes } => r
            matches CommandNode::ArgumentChoice {
            choices: rl,
            child_nodes: rc,
        } && rl == choices && rc@ == child_nodes@.push(child),
        CommandNode::Final { .. } => false,
    }
}

/// `r` is `parent` with the sequence `added` appended to its children.
pub open spec fn spec_extended<T: Clone>(
    parent: CommandNode<T>,
    added: Seq<CommandNode<T>>,
    r: CommandNode<T>,
) -> bool {
    match parent {
        CommandNode::Literal { literals, child_nodes } => r matches CommandNode::Literal {
            literals: rl,
            child_nodes: rc,
        } && rl == literals && rc@ == child_nodes@ + added,
        CommandNode::Argument { argument_type, child_nodes } => r matches CommandNode::Argument {
            argument_type: ra,
            child_nodes: rc,
        } && ra == argument_type && rc@ == child_nodes@ + added,
        CommandNode::ArgumentChoice { choices, child_nodes } => r
            matches CommandNode::ArgumentChoice {
            choices: rl,
            child_nodes: rc,
        } && rl == choices && rc@ == child_nodes@ + added,
        CommandNode::Final { .. } => false,
    }
}

/// The children of a node; a `Final` node has none.
pub open spec fn node_children<T: Clone>(n: CommandNode<T>) -> Seq<CommandNode<T>> {
    match n {
        CommandNode::Literal { child_nodes, .. } => child_nodes@,
        CommandNode::Argument { child_nodes, .. } => child_nodes@,
        CommandNode::ArgumentChoice { child_nodes, .. } => child_nodes@,
        CommandNode::Final { .. } => Seq::empty(),
    }
}

/// `r` is the right-to-left fold of `nodes` over the terminal `leaf`:
/// `nodes[0]` wraps `nodes[1]` wraps ... wraps the last node, which wraps
/// `leaf`, each wrapping as its newly appended last child.
pub open spec fn spec_is_fold<T: Clone>(
    r: CommandNode<T>,
    nodes: Seq<CommandNode<T>>,
    leaf: CommandNode<T>,
) -> bool
    decreases nodes.len(),
{
    if nodes.len() == 0 {
        r == leaf
    } else {
        node_children(r).len() > 0 && spec_attached(nodes[0], node_children(r).last(), r)
            && spec_is_fold(node_children(r).last(), nodes.drop_first(), leaf)
    }
}

/// `r` is the right-to-left fold of `nodes` over `last` with the subtrees
/// `added` appended as the children of `last`: the shape `split` builds.
pub open spec fn spec_is_split<T: Clone>(
    r: CommandNode<T>,
    nodes: Seq<CommandNode<T>>,
    last: CommandNode<T>,
    added: Seq<CommandNode<T>>,
) -> bool
    decreases nodes.len(),
{
    if nodes.len() == 0 {
        spec_extended(last, added, r)
    } else {
        node_children(r).len() > 0 && spec_attached(nodes[0], node_children(r).last(), r)
            && spec_is_split(node_children(r).last(), nodes.drop_first(), last, added)
    }
}

/// A fold whose terminal is the extension of `last` by `added` is a split.
proof fn lemma_fold_to_split<T: Clone>(
    r: CommandNode<T>,
    nodes: Seq<CommandNode<T>>,
    mid: CommandNode<T>,
    last: CommandNode<T>,
    added: Seq<CommandNode<T>>,
)
    requires
        spec_is_fold(r, nodes, mid),
        spec_extended(last, added, mid),
    ensures
        spec_is_split(r, nodes, last, added),
    decreases nodes.len(),
{
    if nodes.len() > 0 {
        lemma_fold_to_split(node_children(r).last(), nodes.drop_first(), mid, last, added);
    }
}

/// Appends `child` to the children of `parent`.
fn attach_node<T: Clone>(parent: CommandNode<T>, child: CommandNode<T>) -> (r: CommandNode<T>)
    requires
        !(parent is Final),
    ensures
        spec_attached(parent, child, r),
        !(r is Final),
{
    match parent {
        CommandNode::Literal { literals, mut child_nodes } => {
            child_nodes.push(child);
            CommandNode::Literal { literals, child_nodes }
        },
        CommandNode::Argument { argument_type, mut child_nodes } => {
            child_nodes.push(child);
            CommandNode::Argument { argument_type, child_nodes }
        },
        CommandNode::ArgumentChoice { choices, mut child_nodes } => {
            child_nodes.push(child);
            CommandNode::ArgumentChoice { choices, child_nodes }
        },
        CommandNode::Final { expects_empty_message, value } => {
            CommandNode::Final { expects_empty_message, value }
        },
    }
}

/// Appends every node of `added`, in order, to the children of `parent`.
fn extend_node<T: Clone>(parent: CommandNode<T>, added: Vec<CommandNode<T>>) -> (r: CommandNode<T>)
    requires
        !(parent is Final),
    ensures
        spec_extended(parent, added@, r),
        !(r is Final),
{
    let mut added = added;
    match parent {
        CommandNode::Literal { literals, mut child_nodes } => {
            child_nodes.append(&mut added);
            CommandNode::Literal { literals, child_nodes }
        },
        CommandNode::Argument { argument_type, mut child_nodes } => {
            child_nodes.append(&mut added);
            CommandNode::Argument { argument_type, child_nodes }
        },
        CommandNode::ArgumentChoice { choices, mut child_nodes } => {
            child_nodes.append(&mut added);
            CommandNode::ArgumentChoice { choices, child_nodes }
        },
        CommandNode::Final { expects_empty_message, value } => {
            CommandNode::Final { expects_empty_message, value }
        },
    }
}

/// Folds `nodes` right-to-left over `final_node`: the last node of `nodes`
/// becomes the immediate parent of `final_node`, the first the root.
fn fold_nodes<T: Clone>(final_node: CommandNode<T>, nodes: Vec<CommandNode<T>>) -> (r: CommandNode<
    T,
>)
    requires
        forall|i: int| 0 <= i < nodes@.len() ==> !(#[trigger] nodes@[i] is Final),
    ensures
        spec_is_fold(r, nodes@, final_node),
{
    let ghost orig = nodes@;
    let mut nodes = nodes;
    let mut acc = final_node;
    proof {
        assert(orig.skip(orig.len() as int) =~= Seq::<CommandNode<T>>::empty());
    }
    while nodes.len() > 0
        invariant
            nodes@.len() <= orig.len(),
            nodes@ == orig.take(nodes@.len() as int),
            forall|i: int| 0 <= i < orig.len() ==> !(#[trigger] orig[i] is Final),
            spec_is_fold(acc, orig.skip(nodes@.len() as int), final_node),
        decreases nodes@.len(),
    {
        let ghost pre = nodes@;
        let ghost k = pre.len() as int;
        let parent = nodes.pop().unwrap();
        proof {
            assert(parent == pre[k - 1]);
            assert(pre[k - 1] == orig.take(k)[k - 1]);
            assert(orig.take(k)[k - 1] == orig[k - 1]);
            assert(nodes@ =~= orig.take(k - 1));
        }
        let ghost prev = acc;
        acc = attach_node(parent, acc);
        proof {
            assert(orig.skip(k - 1).drop_first() =~= orig.skip(k));
            assert(orig.skip(k - 1)[0] == orig[k - 1]);
            assert(node_children(acc) == node_children(parent).push(prev));
            assert(node_children(acc).last() == prev);
            assert(spec_is_fold(acc, orig.skip(k - 1), final_node));
        }
    }
    proof {
        assert(orig.skip(0) =~= orig);
    }
    acc
}

impl<T: Clone> CommandBuilder<T> {
    /// Every accumulated node is a wrapper: a `Final` node never stands in
    /// the middle of a chain.
    #[verifier::type_invariant]
    spec fn wrappers_only(self) -> bool {
        forall|i: int| 0 <= i < self.nodes@.len() ==> !(#[trigger] self.nodes@[i] is Final)
    }

    /// The wrapper nodes accumulated so far, in calling order.
    pub closed spec fn view(self) -> Seq<CommandNode<T>> {
        self.nodes@
    }

    /// Initializes an empty builder.
    pub fn new() -> (r: Self)
        ensures
            r@ =~= Seq::<CommandNode<T>>::empty(),
    {
        Self { nodes: Vec::new() }
    }

    /// Appends a literal node that accepts the given literals.
    pub fn literal(self, literals: Vec<String>) -> (r: Self)
        ensures
            pushed_wrapper(self@, r@),
            is_literal_wrapper(r@.last(), literals),
    {
        proof {
            use_type_invariant(&self);
        }
        let ghost old_nodes = self@;
        let CommandBuilder { mut nodes } = self;
        let empty: Vec<CommandNode<T>> = Vec::new();
        nodes.push(CommandNode::Literal { literals, child_nodes: empty });
        proof {
            assert(nodes@.take(old_nodes.len() as int) =~= old_nodes);
        }
        CommandBuilder { nodes }
    }

    /// Appends an argument node that captures a word.
    pub fn word(self) -> (r: Self)
        ensures
            pushed_wrapper(self@, r@),
            is_argument_wrapper(r@.last(), ArgumentType::Word),
    {
        proof {
            use_type_invariant(&self);
        }
        let ghost old_nodes = self@;
        let CommandBuilder { mut nodes } = self;
        let empty: Vec<CommandNode<T>> = Vec::new();
        nodes.push(CommandNode::Argument { argument_type: ArgumentType::Word, child_nodes: empty });
        proof {
            assert(nodes@.take(old_nodes.len() as int) =~= old_nodes);
        }
        CommandBuilder { nodes }
    }

    /// Appends an argument node that captures the rest of the line.
    pub fn line(self) -> (r: Self)
        ensures
            pushed_wrapper(self@, r@),
            is_argument_wrapper(r@.last(), ArgumentType::Line),
    {
        proof {
            use_type_invariant(&self);
        }
        let ghost old_nodes = self@;
        let CommandBuilder { mut nodes } = self;
        let empty: Vec<CommandNode<T>> = Vec::new();
        nodes.push(CommandNode::Argument { argument_type: ArgumentType::Line, child_nodes: empty });
        proof {
            assert(nodes@.take(old_nodes.len() as int) =~= old_nodes);
        }
        CommandBuilder { nodes }
    }

    /// Appends a choice node that accepts the given literals and captures
    /// the chosen one as an argument.
    pub fn choice(self, choices: Vec<String>) -> (r: Self)
        ensures
            pushed_wrapper(self@, r@),
            is_choice_wrapper(r@.last(), choices),
    {
        proof {
            use_type_invariant(&self);
        }
        let ghost old_nodes = self@;
        let CommandBuilder { mut nodes } = self;
        let empty: Vec<CommandNode<T>> = Vec::new();
        nodes.push(CommandNode::ArgumentChoice { choices, child_nodes: empty });
        proof {
            assert(nodes@.take(old_nodes.len() as int) =~= old_nodes);
        }
        CommandBuilder { nodes }
    }

    /// Closes the chain with a `Final` node: the result is the accumulated
    /// wrappers folded right-to-left around the terminal.
    pub fn finalize(self, expects_empty_message: bool, value: T) -> (r: CommandNode<T>)
        ensures
            spec_is_fold(r, self@, CommandNode::Final { expects_empty_message, value }),
    {
        proof {
            use_type_invariant(&self);
        }
        let CommandBuilder { nodes } = self;
        let final_node = CommandNode::Final { expects_empty_message, value };
        fold_nodes(final_node, nodes)
    }

    /// Splits the chain into several branches: the given pre-built subtrees
    /// become the children of the last-appended wrapper, and the remaining
    /// wrappers are folded as in `finalize`. At least one wrapper must have
    /// been appended.
    pub fn split(self, children: Vec<CommandNode<T>>) -> (r: CommandNode<T>)
        requires
            self@.len() > 0,
        ensures
            spec_is_split(r, self@.drop_last(), self@.last(), children@),
    {
        proof {
            use_type_invariant(&self);
        }
        let ghost old_nodes = self@;
        let ghost added = children@;
        let CommandBuilder { mut nodes } = self;
        let last = nodes.pop().unwrap();
        let mid = extend_node(last, children);
        proof {
            assert(nodes@ =~= old_nodes.drop_last());
        }
        let r = fold_nodes(mid, nodes);
        proof {
            lemma_fold_to_split(r, old_nodes.drop_last(), mid, old_nodes.last(), added);
        }
        r
    }
}

/// `new` extends `old` by exactly one wrapper node at the end.
pub open spec fn pushed_wrapper<T: Clone>(
    old_nodes: Seq<CommandNode<T>>,
    new_nodes: Seq<CommandNode<T>>,
) -> bool {
    new_nodes.len() == old_nodes.len() + 1 && new_nodes.take(old_nodes.len() as int) == old_nodes
}

/// `n` is a childless literal wrapper over exactly the given literals.
pub open spec fn is_literal_wrapper<T: Clone>(n: CommandNode<T>, literals: Vec<String>) -> bool {
    n matches CommandNode::Literal { literals: l, child_nodes: c } && l == literals && c@
        =~= Seq::<CommandNode<T>>::empty()
}

/// `n` is a childless argument wrapper of the given kind.
pub open spec fn is_argument_wrapper<T: Clone>(n: CommandNode<T>, kind: ArgumentType) -> bool {
    n matches CommandNode::Argument { argument_type: a, child_nodes: c } && a == kind && c@
        =~= Seq::<CommandNode<T>>::empty()
}

/// `n` is a childless choice wrapper over exactly the given choices.
pub open spec fn is_choice_wrapper<T: Clone>(n: CommandNode<T>, choices: Vec<String>) -> bool {
    n matches CommandNode::ArgumentChoice { choices: l, child_nodes: c } && l == choices && c@
        =~= Seq::<CommandNode<T>>::empty()
}

impl<T: Clone> Default for CommandBuilder<T> {
    /// An empty builder.
    fn default() -> (r: Self)
        ensures
            r@ =~= Seq::<CommandNode<T>>::empty(),
    {
        Self::new()
    }
}


/// The tree invariant of the data model: only `Final` nodes have zero
/// children; a childless wrapper is a dangling branch.
pub open spec fn node_wf<T: Clone>(node: CommandNode<T>) -> bool
    decreases node,
{
    match node {
        CommandNode::Final { .. } => true,
        _ => node_children(node).len() > 0 && nodes_wf(node_children(node)),
    }
}

/// Every node of the list satisfies the tree invariant.
pub open spec fn nodes_wf<T: Clone>(nodes: Seq<CommandNode<T>>) -> bool
    decreases nodes,
{
    if nodes.len() == 0 {
        true
    } else {
        node_wf(nodes[0]) && nodes_wf(nodes.drop_first())
    }
}

/// Appending a well-formed node keeps a list well-formed.
pub proof fn lemma_nodes_wf_push<T: Clone>(nodes: Seq<CommandNode<T>>, node: CommandNode<T>)
    requires
        nodes_wf(nodes),
        node_wf(node),
    ensures
        nodes_wf(nodes.push(node)),
    decreases nodes.len(),
{
    if nodes.len() == 0 {
        assert(nodes.push(node)[0] == node);
        assert(nodes.push(node).drop_first() =~= Seq::<CommandNode<T>>::empty());
        assert(nodes_wf(Seq::<CommandNode<T>>::empty()));
    } else {
        assert(nodes.push(node)[0] == nodes[0]);
        assert(nodes.push(node).drop_first() =~= nodes.drop_first().push(node));
        lemma_nodes_wf_push(nodes.drop_first(), node);
    }
}

/// A folded chain over a well-formed terminal is well-formed: each wrapper
/// of the chain gains exactly the next stage as a child, so no wrapper
/// dangles. The wrappers' own prior children must be well-formed; the
/// childless wrappers the builder accumulates satisfy that trivially.
pub proof fn lemma_fold_wf<T: Clone>(
    r: CommandNode<T>,
    nodes: Seq<CommandNode<T>>,
    leaf: CommandNode<T>,
)
    requires
        spec_is_fold(r, nodes, leaf),
        node_wf(leaf),
        forall|i: int|
            0 <= i < nodes.len() ==> !(#[trigger] nodes[i] is Final) && nodes_wf(
                node_children(nodes[i]),
            ),
    ensures
        node_wf(r),
    decreases nodes.len(),
{
    if nodes.len() > 0 {
        let mid = node_children(r).last();
        assert forall|i: int|
            0 <= i < nodes.drop_first().len() implies !(#[trigger] nodes.drop_first()[i] is Final)
            && nodes_wf(node_children(nodes.drop_first()[i])) by {
            assert(nodes.drop_first()[i] == nodes[i + 1]);
        }
        lemma_fold_wf(mid, nodes.drop_first(), leaf);
        assert(node_children(r) == node_children(nodes[0]).push(mid));
        lemma_nodes_wf_push(node_children(nodes[0]), mid);
    }
}

/// A split over well-formed branches is well-formed, provided at least one
/// branch is attached: the last wrapper holds the branches, and each earlier
/// wrapper gains exactly the next stage as a child.
pub proof fn lemma_split_wf<T: Clone>(
    r: CommandNode<T>,
    nodes: Seq<CommandNode<T>>,
    last: CommandNode<T>,
    added: Seq<CommandNode<T>>,
)
    requires
        spec_is_split(r, nodes, last, added),
        !(last is Final),
        nodes_wf(node_children(last)),
        added.len() > 0 || node_children(last).len() > 0,
        nodes_wf(added),
        forall|i: int|
            0 <= i < nodes.len() ==> !(#[trigger] nodes[i] is Final) && nodes_wf(
                node_children(nodes[i]),
            ),
    ensures
        node_wf(r),
    decreases nodes.len(),
{
    if nodes.len() == 0 {
        assert(node_children(r) == node_children(last) + added);
        lemma_nodes_wf_concat(node_children(last), added);
    } else {
        let mid = node_children(r).last();
        assert forall|i: int|
            0 <= i < nodes.drop_first().len() implies !(#[trigger] nodes.drop_first()[i] is Final)
            && nodes_wf(node_children(nodes.drop_first()[i])) by {
            assert(nodes.drop_first()[i] == nodes[i + 1]);
        }
        lemma_split_wf(mid, nodes.drop_first(), last, added);
        assert(node_children(r) == node_children(nodes[0]).push(mid));
        lemma_nodes_wf_push(node_children(nodes[0]), mid);
    }
}

/// Concatenating well-formed lists keeps them well-formed.
pub proof fn lemma_nodes_wf_concat<T: Clone>(a: Seq<CommandNode<T>>, b: Seq<CommandNode<T>>)
    requires
        nodes_wf(a),
        nodes_wf(b),
    ensures
        nodes_wf(a + b),
    decreases a.len(),
{
    if a.len() == 0 {
        assert(a + b =~= b);
    } else {
        assert((a + b)[0] == a[0]);
        assert((a + b).drop_first() =~= a.drop_first() + b);
        lemma_nodes_wf_concat(a.drop_first(), b);
    }
}

} // verus!
