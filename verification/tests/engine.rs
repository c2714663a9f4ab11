//! Tests of the grammar tree, the matcher, and the builder.

use minmands::builder::CommandBuilder;
use minmands::input::{InputBox, KeyInput};
use minmands::tree::{ArgumentType, CommandNode};

fn strings(words: &[&str]) -> Vec<String> {
    words.iter().map(|w| w.to_string()).collect()
}

#[test]
fn test_command_macro() {
    // `final_node(true, ())`
    CommandNode::final_node(true, ());

    // `!help` with nothing after it
    CommandNode::literal(strings(&["!help"]), vec![CommandNode::final_node(true, ())]);

    // `!backup` followed by one of `create` / `load`
    CommandNode::literal(
        strings(&["!backup"]),
        vec![CommandNode::argument_choice(
            strings(&["create", "load"]),
            vec![CommandNode::final_node(true, ())],
        )],
    );

    // `!hello` followed by a word
    CommandNode::literal(
        strings(&["!hello"]),
        vec![CommandNode::argument(
            ArgumentType::Word,
            vec![CommandNode::final_node(true, ())],
        )],
    );

    // `!echo` followed by a line
    CommandNode::literal(
        strings(&["!echo"]),
        vec![CommandNode::argument(
            ArgumentType::Line,
            vec![CommandNode::final_node(true, ())],
        )],
    );
}

fn hello_tree() -> CommandNode<i32> {
    CommandBuilder::new()
        .literal(strings(&["!hello"]))
        .word()
        .finalize(true, 7)
}

#[test]
fn round_trip_word_argument() {
    let tree = hello_tree();
    let parsed = tree.parse("!hello Alice").unwrap();
    assert_eq!(parsed.value, 7);
    assert_eq!(parsed.arguments, strings(&["Alice"]));
}

#[test]
fn trailing_whitespace_is_trimmed() {
    let tree = hello_tree();
    let a = tree.parse("!hello Alice  ").unwrap();
    let b = tree.parse("!hello Alice").unwrap();
    assert_eq!(a, b);
    assert_eq!(a.arguments, strings(&["Alice"]));
}

#[test]
fn unmatched_literal_fails() {
    let tree = hello_tree();
    let err = tree.parse("!goodbye Alice").unwrap_err();
    assert!(err.parsed.is_empty());
    assert!(err.msg.contains("!hello"));
}

#[test]
fn missing_word_argument_fails() {
    let tree = hello_tree();
    let err = tree.parse("!hello").unwrap_err();
    assert!(err.parsed.is_empty());
}

#[test]
fn trailing_input_rejected_by_final() {
    let tree = hello_tree();
    assert!(tree.parse("!hello Alice Bob").is_err());
}

#[test]
fn final_without_empty_check_allows_rest() {
    let tree = CommandBuilder::new()
        .literal(strings(&["!say"]))
        .finalize(false, 1);
    let parsed = tree.parse("!say whatever else").unwrap();
    assert_eq!(parsed.value, 1);
    assert!(parsed.arguments.is_empty());
}

#[test]
fn line_argument_stops_at_newline() {
    let tree = CommandBuilder::new()
        .literal(strings(&["!echo"]))
        .line()
        .finalize(true, 2);
    let parsed = tree.parse("!echo hello world").unwrap();
    assert_eq!(parsed.arguments, strings(&["hello world"]));
}

#[test]
fn tail_argument_takes_everything() {
    let tree = CommandNode::literal(
        strings(&["!t"]),
        vec![CommandNode::argument(
            ArgumentType::Tail,
            vec![CommandNode::final_node(false, 3)],
        )],
    );
    let parsed = tree.parse("!t a b c").unwrap();
    assert_eq!(parsed.arguments, strings(&["a b c"]));
}

#[test]
fn tail_argument_needs_content() {
    let tree = CommandNode::argument(
        ArgumentType::Tail,
        vec![CommandNode::final_node(false, 3)],
    );
    assert!(tree.parse("   ").is_err());
}

#[test]
fn choice_captures_the_chosen_literal() {
    let tree = CommandBuilder::new()
        .literal(strings(&["!backup"]))
        .choice(strings(&["create", "load"]))
        .finalize(true, 4);
    let parsed = tree.parse("!backup load").unwrap();
    assert_eq!(parsed.arguments, strings(&["load"]));
    assert!(tree.parse("!backup delete").is_err());
}

#[test]
fn first_literal_wins_in_declaration_order() {
    // "!ab" is listed first, so it wins over the shorter "!a".
    let tree = CommandNode::literal(
        strings(&["!ab", "!a"]),
        vec![CommandNode::argument(
            ArgumentType::Word,
            vec![CommandNode::final_node(true, 5)],
        )],
    );
    let parsed = tree.parse("!ab x").unwrap();
    assert_eq!(parsed.arguments, strings(&["x"]));

    // With the shorter one first, it matches first — the matcher never
    // backtracks to a later literal — and the leftover "b x" makes the
    // branch fail.
    let tree2 = CommandNode::literal(
        strings(&["!a", "!ab"]),
        vec![CommandNode::argument(
            ArgumentType::Word,
            vec![CommandNode::final_node(true, 5)],
        )],
    );
    assert!(tree2.parse("!ab x").is_err());
}

#[test]
fn first_matching_child_wins() {
    // Two children both reachable; the word child is first and succeeds.
    let tree = CommandNode::literal(
        strings(&["!c"]),
        vec![
            CommandNode::argument(ArgumentType::Word, vec![CommandNode::final_node(true, 1)]),
            CommandNode::argument(ArgumentType::Line, vec![CommandNode::final_node(true, 2)]),
        ],
    );
    let parsed = tree.parse("!c token").unwrap();
    assert_eq!(parsed.value, 1);
}

#[test]
fn backtracking_falls_through_to_later_children() {
    // The word child requires an empty rest, which fails on two words, so
    // the line child gets its turn.
    let tree = CommandNode::literal(
        strings(&["!c"]),
        vec![
            CommandNode::argument(ArgumentType::Word, vec![CommandNode::final_node(true, 1)]),
            CommandNode::argument(ArgumentType::Line, vec![CommandNode::final_node(true, 2)]),
        ],
    );
    let parsed = tree.parse("!c two words").unwrap();
    assert_eq!(parsed.value, 2);
    assert_eq!(parsed.arguments, strings(&["two words"]));
}

#[test]
fn builder_folds_first_appended_as_root() {
    // Three levels deep: literal, then word, then choice. If the fold
    // direction were reversed the literal would not be the root and this
    // message could not parse.
    let tree = CommandBuilder::new()
        .literal(strings(&["!deep"]))
        .word()
        .choice(strings(&["x", "y"]))
        .finalize(true, 9);
    let parsed = tree.parse("!deep foo x").unwrap();
    assert_eq!(parsed.value, 9);
    assert_eq!(parsed.arguments, strings(&["foo", "x"]));
}

#[test]
fn builder_split_attaches_branches_to_last_wrapper() {
    let create = CommandBuilder::new()
        .literal(strings(&["create"]))
        .finalize(true, 1);
    let load = CommandBuilder::new()
        .literal(strings(&["load"]))
        .finalize(true, 2);
    let tree = CommandBuilder::new()
        .literal(strings(&["!backup"]))
        .split(vec![create, load]);
    assert_eq!(tree.parse("!backup create").unwrap().value, 1);
    assert_eq!(tree.parse("!backup load").unwrap().value, 2);
    assert!(tree.parse("!backup other").is_err());
}

#[test]
fn children_mut_only_on_wrappers() {
    let mut wrapper: CommandNode<i32> = CommandNode::literal(strings(&["!w"]), vec![]);
    assert!(wrapper.children_mut().is_some());
    let mut leaf: CommandNode<i32> = CommandNode::final_node(true, 0);
    assert!(leaf.children_mut().is_none());
}

#[test]
fn argument_type_names() {
    assert_eq!(ArgumentType::Word.name(), "Word");
    assert_eq!(ArgumentType::Line.name(), "Line");
    assert_eq!(ArgumentType::Tail.name(), "Tail");
}

#[test]
fn line_argument_drops_carriage_return_before_newline() {
    let tree = CommandNode::literal(
        strings(&["!echo"]),
        vec![CommandNode::argument(
            ArgumentType::Line,
            vec![CommandNode::final_node(false, 6)],
        )],
    );
    let parsed = tree.parse("!echo a\r\nrest").unwrap();
    assert_eq!(parsed.arguments, strings(&["a"]));
}

#[test]
fn input_positions_count_characters() {
    let mut input = InputBox::new();
    input.handle_key(KeyInput::Char('\u{e9}'));
    input.handle_key(KeyInput::Char('x'));
    assert_eq!(input.content, "\u{e9}x");
    assert_eq!(input.cursor, 2);
    input.handle_key(KeyInput::Home);
    input.handle_key(KeyInput::Delete);
    assert_eq!(input.content, "x");
}
