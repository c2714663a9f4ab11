//! The grammar tree: a recursive node type and the backtracking matcher.
//!
//! `spec_parse` is the mathematical description of the matcher: recursive
//! descent with ordered backtracking, first match wins. The executable
//! `parse` is proved to agree with it.

use vstd::prelude::*;

use crate::text::{
    all_ws, count_line, count_word, is_prefix_of, is_space_str, line_len, spec_trim,
    starts_with_str, trim_str, word_len,
};
use vstd::pervasive::cloned;

verus! {

/// How a free-form token is extracted by an `Argument` node.
#[derive(Debug, Clone, Copy, PartialEq, Eq)]
pub enum ArgumentType {
    /// Capture a single word: the run of characters up to the next whitespace.
    Word,
    /// Capture the rest of the current line.
    Line,
    /// Capture the entire remaining input.
    Tail,
}

impl ArgumentType {
    /// The name of the argument kind, for diagnostics.
    pub fn name(&self) -> (r: &'static str)
        ensures
            *self == ArgumentType::Word ==> r@ == "Word"@,
            *self == ArgumentType::Line ==> r@ == "Line"@,
            *self == ArgumentType::Tail ==> r@ == "Tail"@,
    {
        match self {
            ArgumentType::Word => "Word",
            ArgumentType::Line => "Line",
            ArgumentType::Tail => "Tail",
        }
    }
}

/// A node in the command tree, generic over the marker type that is
/// returned upon successfully parsing a branch.
#[derive(Debug)]
pub enum CommandNode<T: Clone> {
    Literal { literals: Vec<String>, child_nodes: Vec<CommandNode<T>> },
    Argument { argument_type: ArgumentType, child_nodes: Vec<CommandNode<T>> },
    ArgumentChoice { choices: Vec<String>, child_nodes: Vec<CommandNode<T>> },
    Final { expects_empty_message: bool, value: T },
}

/// A successful parse: the marker value of the matched `Final` node and the
/// arguments captured along the path, in root-to-leaf order.
#[derive(Debug, Clone, PartialEq, Eq)]
pub struct ParsedCommand<T> {
    pub value: T,
    pub arguments: Vec<String>,
}

/// A failed parse: the arguments captured up to the failure point and a
/// human-readable diagnostic, used for logs only.
#[derive(Debug, Clone)]
pub struct ParseError {
    pub parsed: Vec<String>,
    pub msg: String,
}

pub type ParseResult<T> = Result<ParsedCommand<T>, ParseError>;

/// The outcome of matching one node against a message, at the level of the
/// mathematical model: either a marker value with the captured arguments, or
/// a failure carrying the arguments captured up to the failure point.
pub enum ParseOutcome<T> {
    Match { value: T, args: Seq<Seq<char>> },
    Fail { args: Seq<Seq<char>> },
}

/// The index of the first candidate, in declaration order, that is a prefix
/// of the message.
pub open spec fn spec_first_prefix(cands: Seq<Seq<char>>, msg: Seq<char>) -> Option<int>
    decreases cands.len(),
{
    if cands.len() == 0 {
        None
    } else if is_prefix_of(cands[0], msg) {
        Some(0)
    } else {
        match spec_first_prefix(cands.drop_first(), msg) {
            Some(i) => Some(i + 1),
            None => None,
        }
    }
}

/// The token an `Argument` node of the given kind extracts from `msg`, if
/// one can be extracted.
pub open spec fn spec_token(kind: ArgumentType, msg: Seq<char>) -> Option<Seq<char>> {
    match kind {
        ArgumentType::Word => if word_len(msg) > 0 {
            Some(msg.take(word_len(msg) as int))
        } else {
            None
        },
        ArgumentType::Line => if msg.len() == 0 {
            None
        } else {
            let k = line_len(msg) as int;
            if k < msg.len() && k > 0 && msg[k - 1] == '\r' {
                Some(msg.take(k - 1))
            } else {
                Some(msg.take(k))
            }
        },
        ArgumentType::Tail => if all_ws(msg) {
            None
        } else {
            Some(msg)
        },
    }
}

/// The message that remains for the children after a matched prefix of
/// `token_len` characters: the rest, with surrounding whitespace trimmed.
pub open spec fn spec_rest(msg: Seq<char>, token_len: nat) -> Seq<char> {
    spec_trim(msg.skip(token_len as int))
}

/// What parsing `node` against `message` yields, given the arguments
/// accumulated so far.
pub open spec fn spec_parse<T: Clone>(
    node: CommandNode<T>,
    message: Seq<char>,
    acc: Seq<Seq<char>>,
) -> ParseOutcome<T>
    decreases node,
{
    match node {
        CommandNode::Literal { literals, child_nodes } => match spec_first_prefix(
            literals.deep_view(),
            message,
        ) {
            None => ParseOutcome::Fail { args: acc },
            Some(i) => {
                let rest = spec_rest(message, literals.deep_view()[i].len());
                match spec_first_child_match(child_nodes@, rest, acc) {
                    Some(outcome) => outcome,
                    None => ParseOutcome::Fail { args: acc },
                }
            },
        },
        CommandNode::Argument { argument_type, child_nodes } => match spec_token(
            argument_type,
            message,
        ) {
            None => ParseOutcome::Fail { args: acc },
            Some(token) => {
                let rest = spec_rest(message, token.len());
                let acc2 = acc.push(token);
                match spec_first_child_match(child_nodes@, rest, acc2) {
                    Some(outcome) => outcome,
                    None => ParseOutcome::Fail { args: acc2 },
                }
            },
        },
        CommandNode::ArgumentChoice { choices, child_nodes } => match spec_first_prefix(
            choices.deep_view(),
            message,
        ) {
            None => ParseOutcome::Fail { args: acc },
            Some(i) => {
                let token = choices.deep_view()[i];
                let rest = spec_rest(message, token.len());
                let acc2 = acc.push(token);
                match spec_first_child_match(child_nodes@, rest, acc2) {
                    Some(outcome) => outcome,
                    None => ParseOutcome::Fail { args: acc2 },
                }
            },
        },
        CommandNode::Final { expects_empty_message, value } => if expects_empty_message
            && spec_trim(message).len() > 0 {
            ParseOutcome::Fail { args: acc }
        } else {
            ParseOutcome::Match { value, args: acc }
        },
    }
}

/// The outcome of the first child, in order, whose parse succeeds, or `None`
/// when every child fails.
pub open spec fn spec_first_child_match<T: Clone>(
    children: Seq<CommandNode<T>>,
    message: Seq<char>,
    acc: Seq<Seq<char>>,
) -> Option<ParseOutcome<T>>
    decreases children,
{
    if children.len() == 0 {
        None
    } else if spec_parse(children[0], message, acc) is Fail {
        spec_first_child_match(children.drop_first(), message, acc)
    } else {
        Some(spec_parse(children[0], message, acc))
    }
}

/// How an executable parse result realizes an outcome of the model: the
/// captured arguments are pinned exactly, the marker value is a clone of the
/// matched one, and the diagnostic text is left open.
pub open spec fn outcome_matches<T: Clone>(o: ParseOutcome<T>, r: ParseResult<T>) -> bool {
    match o {
        ParseOutcome::Match { value, args } => r matches Ok(pc) && cloned::<T>(value, pc.value)
            && pc.arguments.deep_view() == args,
        ParseOutcome::Fail { args } => r matches Err(e) && e.parsed.deep_view() == args,
    }
}

proof fn lemma_first_prefix_none(cands: Seq<Seq<char>>, msg: Seq<char>)
    requires
        forall|k: int| 0 <= k < cands.len() ==> !is_prefix_of(cands[k], msg),
    ensures
        spec_first_prefix(cands, msg) is None,
    decreases cands.len(),
{
    if cands.len() > 0 {
        assert forall|k: int| 0 <= k < cands.drop_first().len() implies !is_prefix_of(
            cands.drop_first()[k],
            msg,
        ) by {
            assert(cands.drop_first()[k] == cands[k + 1]);
        }
        lemma_first_prefix_none(cands.drop_first(), msg);
    }
}

proof fn lemma_first_prefix_some(cands: Seq<Seq<char>>, msg: Seq<char>, i: int)
    requires
        0 <= i < cands.len(),
        is_prefix_of(cands[i], msg),
        forall|k: int| 0 <= k < i ==> !is_prefix_of(cands[k], msg),
    ensures
        spec_first_prefix(cands, msg) == Some(i),
    decreases cands.len(),
{
    if i > 0 {
        assert forall|k: int| 0 <= k < i - 1 implies !is_prefix_of(cands.drop_first()[k], msg) by {
            assert(cands.drop_first()[k] == cands[k + 1]);
        }
        assert(cands.drop_first()[i - 1] == cands[i]);
        lemma_first_prefix_some(cands.drop_first(), msg, i - 1);
    }
}

proof fn lemma_first_child_shape<T: Clone>(
    children: Seq<CommandNode<T>>,
    message: Seq<char>,
    acc: Seq<Seq<char>>,
)
    ensures
        match spec_first_child_match(children, message, acc) {
            Some(o) => o is Match,
            None => true,
        },
    decreases children,
{
    if children.len() > 0 {
        match spec_parse(children[0], message, acc) {
            ParseOutcome::Match { .. } => {},
            ParseOutcome::Fail { .. } => {
                lemma_first_child_shape(children.drop_first(), message, acc);
            },
        }
    }
}

proof fn lemma_first_child_none<T: Clone>(
    children: Seq<CommandNode<T>>,
    message: Seq<char>,
    acc: Seq<Seq<char>>,
)
    requires
        forall|j: int|
            0 <= j < children.len() ==> #[trigger] spec_parse(children[j], message, acc) is Fail,
    ensures
        spec_first_child_match(children, message, acc) is None,
    decreases children,
{
    if children.len() > 0 {
        assert(spec_parse(children[0], message, acc) is Fail);
        assert forall|j: int| 0 <= j < children.drop_first().len() implies #[trigger] spec_parse(
            children.drop_first()[j],
            message,
            acc,
        ) is Fail by {
            assert(children.drop_first()[j] == children[j + 1]);
        }
        lemma_first_child_none(children.drop_first(), message, acc);
    }
}

proof fn lemma_first_child_some<T: Clone>(
    children: Seq<CommandNode<T>>,
    message: Seq<char>,
    acc: Seq<Seq<char>>,
    i: int,
)
    requires
        0 <= i < children.len(),
        spec_parse(children[i], message, acc) is Match,
        forall|j: int|
            0 <= j < i ==> #[trigger] spec_parse(children[j], message, acc) is Fail,
    ensures
        spec_first_child_match(children, message, acc) == Some(
            spec_parse(children[i], message, acc),
        ),
    decreases children,
{
    if i > 0 {
        assert(spec_parse(children[0], message, acc) is Fail);
        assert forall|j: int| 0 <= j < i - 1 implies #[trigger] spec_parse(
            children.drop_first()[j],
            message,
            acc,
        ) is Fail by {
            assert(children.drop_first()[j] == children[j + 1]);
        }
        assert(children.drop_first()[i - 1] == children[i]);
        lemma_first_child_some(children.drop_first(), message, acc, i - 1);
    } else {
        assert(!(spec_parse(children[0], message, acc) is Fail));
    }
}

/// Finds the first candidate, in declaration order, that is a prefix of the
/// message.
fn find_prefix(cands: &Vec<String>, msg: &str) -> (r: Option<usize>)
    ensures
        match spec_first_prefix(cands.deep_view(), msg@) {
            None => r is None,
            Some(i) => r matches Some(u) && u == i,
        },
{
    let n = cands.len();
    let mut idx: usize = 0;
    while idx < n
        invariant
            idx <= n,
            n == cands@.len(),
            forall|k: int| 0 <= k < idx ==> !is_prefix_of(cands.deep_view()[k], msg@),
        decreases n - idx,
    {
        if starts_with_str(msg, cands[idx].as_str()) {
            proof {
                lemma_first_prefix_some(cands.deep_view(), msg@, idx as int);
            }
            return Some(idx);
        }
        idx += 1;
    }
    proof {
        lemma_first_prefix_none(cands.deep_view(), msg@);
    }
    None
}

/// Clones a list of captured arguments.
pub(crate) fn clone_args(v: &Vec<String>) -> (r: Vec<String>)
    ensures
        r@ == v@,
{
    let mut r: Vec<String> = Vec::new();
    let mut i: usize = 0;
    while i < v.len()
        invariant
            i <= v@.len(),
            r@ == v@.subrange(0, i as int),
        decreases v@.len() - i,
    {
        r.push(v[i].clone());
        proof {
            assert(r@ =~= v@.subrange(0, i + 1));
        }
        i += 1;
    }
    proof {
        assert(r@ =~= v@);
    }
    r
}

/// Builds the diagnostic for a failed literal or choice match.
fn expected_one_of(cands: &Vec<String>, msg: &str) -> String {
    let mut out = String::new();
    out.append("Expected one of: ");
    let mut i: usize = 0;
    while i < cands.len()
        decreases cands.len() - i,
    {
        if i > 0 {
            out.append(", ");
        }
        out.append(cands[i].as_str());
        i += 1;
    }
    out.append(". Found: \"");
    out.append(msg);
    out.append("\"");
    out
}

impl<T: Clone> CommandNode<T> {
    /// Attempts to parse the message against this node's grammar.
    ///
    /// The result realizes `spec_parse` on this node with no arguments
    /// accumulated: on a match, the cloned marker value of the matched
    /// `Final` node and exactly the captured arguments; on a failure, the
    /// arguments captured up to the failure point.
    pub fn parse(&self, message: &str) -> (r: ParseResult<T>)
        ensures
            outcome_matches(spec_parse(*self, message@, Seq::empty()), r),
    {
        let args: Vec<String> = Vec::new();
        proof {
            assert(args.deep_view() =~= Seq::<Seq<char>>::empty());
        }
        self.parse_impl(message, args)
    }

    fn parse_impl(&self, message: &str, arguments: Vec<String>) -> (r: ParseResult<T>)
        ensures
            outcome_matches(spec_parse(*self, message@, arguments.deep_view()), r),
        decreases *self,
    {
        match self {
            CommandNode::Literal { literals, child_nodes } => {
                match find_prefix(literals, message) {
                    None => {
                        let msg = expected_one_of(literals, message);
                        Err(ParseError { parsed: arguments, msg })
                    },
                    Some(i) => {
                        proof {
                            lemma_first_prefix_props(literals.deep_view(), message@);
                        }
                        let lit_len = literals[i].as_str().unicode_len();
                        let rest = trim_str(
                            message.substring_char(lit_len, message.unicode_len()),
                        );
                        match Self::parse_children(child_nodes, rest, &arguments) {
                            Some(pc) => Ok(pc),
                            None => Err(
                                ParseError {
                                    parsed: arguments,
                                    msg: "No inner nodes matched".to_owned(),
                                },
                            ),
                        }
                    },
                }
            },
            CommandNode::Argument { argument_type, child_nodes } => {
                let n = message.unicode_len();
                let token_end: usize = match argument_type {
                    ArgumentType::Word => {
                        let wl = count_word(message);
                        if wl == 0 {
                            let mut msg = String::new();
                            msg.append("Expected a ");
                            msg.append(argument_type.name());
                            msg.append(" argument");
                            return Err(ParseError { parsed: arguments, msg });
                        }
                        proof {
                            crate::text::lemma_run_len_props(
                                message@,
                                |c: char| !crate::text::is_space_char(c),
                            );
                        }
                        wl
                    },
                    ArgumentType::Line => {
                        if n == 0 {
                            let mut msg = String::new();
                            msg.append("Expected a ");
                            msg.append(argument_type.name());
                            msg.append(" argument");
                            return Err(ParseError { parsed: arguments, msg });
                        }
                        let k = count_line(message);
                        proof {
                            crate::text::lemma_run_len_props(message@, |c: char| c != '\n');
                        }
                        if k < n && k > 0 && message.get_char(k - 1) == '\r' {
                            k - 1
                        } else {
                            k
                        }
                    },
                    ArgumentType::Tail => {
                        if is_space_str(message) {
                            let mut msg = String::new();
                            msg.append("Expected a ");
                            msg.append(argument_type.name());
                            msg.append(" argument");
                            return Err(ParseError { parsed: arguments, msg });
                        }
                        n
                    },
                };
                let token = message.substring_char(0, token_end);
                proof {
                    assert(token@ =~= spec_token(*argument_type, message@).unwrap());
                }
                let rest = trim_str(message.substring_char(token_end, n));
                let mut args2 = arguments;
                args2.push(token.to_owned());
                proof {
                    assert(args2.deep_view() =~= arguments.deep_view().push(token@));
                }
                match Self::parse_children(child_nodes, rest, &args2) {
                    Some(pc) => Ok(pc),
                    None => Err(
                        ParseError { parsed: args2, msg: "No inner nodes matched".to_owned() },
                    ),
                }
            },
            CommandNode::ArgumentChoice { choices, child_nodes } => {
                match find_prefix(choices, message) {
                    None => {
                        let msg = expected_one_of(choices, message);
                        Err(ParseError { parsed: arguments, msg })
                    },
                    Some(i) => {
                        proof {
                            lemma_first_prefix_props(choices.deep_view(), message@);
                        }
                        let token = choices[i].clone();
                        let tok_len = token.as_str().unicode_len();
                        let rest = trim_str(
                            message.substring_char(tok_len, message.unicode_len()),
                        );
                        let mut args2 = arguments;
                        args2.push(token);
                        proof {
                            assert(args2.deep_view() =~= arguments.deep_view().push(
                                choices.deep_view()[i as int],
                            ));
                        }
                        match Self::parse_children(child_nodes, rest, &args2) {
                            Some(pc) => Ok(pc),
                            None => Err(
                                ParseError {
                                    parsed: args2,
                                    msg: "No inner nodes matched".to_owned(),
                                },
                            ),
                        }
                    },
                }
            },
            CommandNode::Final { expects_empty_message, value } => {
                if *expects_empty_message && !trim_str(message).is_empty() {
                    let mut msg = String::new();
                    msg.append("Did not expect any more arguments, found: ");
                    msg.append(message);
                    Err(ParseError { parsed: arguments, msg })
                } else {
                    Ok(ParsedCommand { value: value.clone(), arguments })
                }
            },
        }
    }

    /// Tries each child in order on the remaining message; the first that
    /// succeeds wins.
    fn parse_children(
        children: &Vec<CommandNode<T>>,
        message: &str,
        arguments: &Vec<String>,
    ) -> (r: Option<ParsedCommand<T>>)
        ensures
            match spec_first_child_match(children@, message@, arguments.deep_view()) {
                None => r is None,
                Some(o) => match o {
                    ParseOutcome::Match { value, args } => r matches Some(pc) && cloned::<T>(
                        value,
                        pc.value,
                    ) && pc.arguments.deep_view() == args,
                    ParseOutcome::Fail { .. } => false,
                },
            },
        decreases children@,
    {
        let n = children.len();
        let mut j: usize = 0;
        while j < n
            invariant
                j <= n,
                n == children@.len(),
                forall|k: int|
                    0 <= k < j ==> #[trigger] spec_parse(
                        children@[k],
                        message@,
                        arguments.deep_view(),
                    ) is Fail,
            decreases n - j,
        {
            match children[j].parse_impl(message, clone_args(arguments)) {
                Ok(pc) => {
                    proof {
                        lemma_first_child_some(
                            children@,
                            message@,
                            arguments.deep_view(),
                            j as int,
                        );
                    }
                    return Some(pc);
                },
                Err(_) => {},
            }
            j += 1;
        }
        proof {
            lemma_first_child_none(children@, message@, arguments.deep_view());
        }
        None
    }
}

/// The properties of the first matched prefix: it is a prefix, and nothing
/// before it is.
pub proof fn lemma_first_prefix_props(cands: Seq<Seq<char>>, msg: Seq<char>)
    ensures
        match spec_first_prefix(cands, msg) {
            Some(i) => 0 <= i < cands.len() && is_prefix_of(cands[i], msg) && (forall|k: int|
                0 <= k < i ==> !is_prefix_of(cands[k], msg)),
            None => forall|k: int| 0 <= k < cands.len() ==> !is_prefix_of(cands[k], msg),
        },
    decreases cands.len(),
{
    if cands.len() > 0 && !is_prefix_of(cands[0], msg) {
        lemma_first_prefix_props(cands.drop_first(), msg);
        match spec_first_prefix(cands.drop_first(), msg) {
            Some(i) => {
                assert(cands[i + 1] == cands.drop_first()[i]);
                assert forall|k: int| 0 <= k < i + 1 implies !is_prefix_of(cands[k], msg) by {
                    if k > 0 {
                        assert(cands[k] == cands.drop_first()[k - 1]);
                        assert(!is_prefix_of(cands.drop_first()[k - 1], msg));
                    }
                }
                assert(spec_first_prefix(cands, msg) == Some(i + 1));
            },
            None => {
                assert forall|k: int| 0 <= k < cands.len() implies !is_prefix_of(cands[k], msg) by {
                    if k > 0 {
                        assert(cands[k] == cands.drop_first()[k - 1]);
                        assert(!is_prefix_of(cands.drop_first()[k - 1], msg));
                    }
                }
            },
        }
    }
}


impl<T: Clone> CommandNode<T> {
    /// Mutable access to the node's children; a `Final` node has none.
    pub fn children_mut(&mut self) -> (r: Option<&mut Vec<CommandNode<T>>>)
        ensures
            *old(self) is Final <==> r is None,
    {
        match self {
            CommandNode::Literal { child_nodes, .. } => Some(child_nodes),
            CommandNode::Argument { child_nodes, .. } => Some(child_nodes),
            CommandNode::ArgumentChoice { child_nodes, .. } => Some(child_nodes),
            CommandNode::Final { .. } => None,
        }
    }
}

} // verus!
