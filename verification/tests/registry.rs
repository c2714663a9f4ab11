//! Tests of the command tree gates, the registry, and end-to-end dispatch.

use minmands::action::{Action, AppAction};
use minmands::builder::CommandBuilder;
use minmands::commands::action::CommandAction;
use minmands::commands::authority::AuthorityLevel;
use minmands::commands::parse::{ArgsError, CallError, CommandParseError};
use minmands::commands::tree::CommandTree;
use minmands::commands::CommandCall;
use minmands::config::SimpleCommands;
use minmands::model::Model;
use minmands::tree::{ArgumentType, CommandNode};

fn strings(words: &[&str]) -> Vec<String> {
    words.iter().map(|w| w.to_string()).collect()
}

fn greeting_tree(cooldown: u64) -> CommandTree {
    let root = CommandBuilder::new()
        .literal(strings(&["!hello"]))
        .word()
        .finalize(true, CommandAction::Hello);
    CommandTree::new(root).with_cooldown(cooldown)
}

fn call(message: &str, authority: AuthorityLevel) -> CommandCall<'_> {
    CommandCall { message, authority }
}

#[test]
fn cooldown_blocks_and_expires() {
    let mut tree = greeting_tree(30000);
    let first = tree.parse(call("!hello Alice", AuthorityLevel::Viewer));
    assert_eq!(first.unwrap(), Action::Say("Hi, Alice ^^".to_string()));

    let second = tree.parse(call("!hello Alice", AuthorityLevel::Viewer));
    assert!(matches!(
        second,
        Err(CommandParseError::Call(CallError::OnCooldown))
    ));

    tree.update(30000);
    let third = tree.parse(call("!hello Alice", AuthorityLevel::Viewer));
    assert_eq!(third.unwrap(), Action::Say("Hi, Alice ^^".to_string()));
}

#[test]
fn cooldown_is_per_argument_tuple() {
    let mut tree = greeting_tree(30000);
    assert!(tree.parse(call("!hello Alice", AuthorityLevel::Viewer)).is_ok());
    // A different captured tuple has its own window.
    assert!(tree.parse(call("!hello Bob", AuthorityLevel::Viewer)).is_ok());
}

#[test]
fn partial_update_keeps_the_window() {
    let mut tree = greeting_tree(30000);
    assert!(tree.parse(call("!hello Alice", AuthorityLevel::Viewer)).is_ok());
    tree.update(29999);
    assert!(matches!(
        tree.parse(call("!hello Alice", AuthorityLevel::Viewer)),
        Err(CommandParseError::Call(CallError::OnCooldown))
    ));
    tree.update(1);
    assert!(tree.parse(call("!hello Alice", AuthorityLevel::Viewer)).is_ok());
}

#[test]
fn zero_cooldown_still_dedupes_within_a_tick() {
    let mut tree = greeting_tree(0);
    assert!(tree.parse(call("!hello Alice", AuthorityLevel::Viewer)).is_ok());
    assert!(matches!(
        tree.parse(call("!hello Alice", AuthorityLevel::Viewer)),
        Err(CommandParseError::Call(CallError::OnCooldown))
    ));
    tree.update(0);
    assert!(tree.parse(call("!hello Alice", AuthorityLevel::Viewer)).is_ok());
}

#[test]
fn unauthorized_never_starts_a_cooldown() {
    let root = CommandBuilder::new()
        .literal(strings(&["!hello"]))
        .word()
        .finalize(true, CommandAction::Hello);
    let mut tree = CommandTree::new(root)
        .with_cooldown(30000)
        .with_authority(AuthorityLevel::Moderator);

    let rejected = tree.parse(call("!hello Alice", AuthorityLevel::Viewer));
    assert!(matches!(
        rejected,
        Err(CommandParseError::Call(CallError::Unauthorized))
    ));

    // The rejected attempt left no window behind: the same arguments are
    // accepted right away from an authorized caller.
    let accepted = tree.parse(call("!hello Alice", AuthorityLevel::Moderator));
    assert_eq!(accepted.unwrap(), Action::Say("Hi, Alice ^^".to_string()));
}

#[test]
fn authority_checked_before_cooldown() {
    let root = CommandBuilder::new()
        .literal(strings(&["!hello"]))
        .word()
        .finalize(true, CommandAction::Hello);
    let mut tree = CommandTree::new(root)
        .with_cooldown(30000)
        .with_authority(AuthorityLevel::Moderator);
    assert!(tree.parse(call("!hello A", AuthorityLevel::Broadcaster)).is_ok());
    // On cooldown now, but an unauthorized caller still sees Unauthorized.
    assert!(matches!(
        tree.parse(call("!hello A", AuthorityLevel::Viewer)),
        Err(CommandParseError::Call(CallError::Unauthorized))
    ));
}

#[test]
fn arity_error_surfaces_from_tree_parse() {
    // The grammar captures two words, the Hello marker wants exactly one.
    let root = CommandNode::literal(
        strings(&["!hello"]),
        vec![CommandNode::argument(
            ArgumentType::Word,
            vec![CommandNode::argument(
                ArgumentType::Word,
                vec![CommandNode::final_node(true, CommandAction::Hello)],
            )],
        )],
    );
    let mut tree = CommandTree::new(root);
    let r = tree.parse(call("!hello one two", AuthorityLevel::Viewer));
    assert!(matches!(r, Err(CommandParseError::Args(ArgsError::TooMany))));
}

#[test]
fn not_enough_arguments() {
    let root = CommandBuilder::new()
        .literal(strings(&["!hello"]))
        .finalize(true, CommandAction::Hello);
    let mut tree = CommandTree::new(root);
    let r = tree.parse(call("!hello", AuthorityLevel::Viewer));
    assert!(matches!(r, Err(CommandParseError::Args(ArgsError::NotEnough))));
}

#[test]
fn grammar_mismatch_is_a_parse_error() {
    let mut tree = greeting_tree(0);
    let r = tree.parse(call("!other", AuthorityLevel::Viewer));
    assert!(matches!(r, Err(CommandParseError::Parse(_))));
}

#[test]
fn into_action_messages() {
    assert_eq!(
        CommandAction::Hello.into_action(strings(&["X"])).unwrap(),
        Action::Say("Hi, X ^^".to_string())
    );
    assert_eq!(
        CommandAction::Bye.into_action(strings(&["X"])).unwrap(),
        Action::Say("cya, X!".to_string())
    );
    assert_eq!(
        CommandAction::GoodNight.into_action(strings(&["X"])).unwrap(),
        Action::Say("Good night, X ^^".to_string())
    );
    assert_eq!(
        CommandAction::ReloadConfig.into_action(vec![]).unwrap(),
        Action::ReloadConfig
    );
    assert_eq!(
        CommandAction::Say("hi".to_string()).into_action(vec![]).unwrap(),
        Action::Say("hi".to_string())
    );
    assert_eq!(
        CommandAction::Hello.into_action(vec![]).unwrap_err(),
        ArgsError::NotEnough
    );
    assert_eq!(
        CommandAction::Hello.into_action(strings(&["a", "b"])).unwrap_err(),
        ArgsError::TooMany
    );
}

#[test]
fn two_matching_trees_both_fire() {
    // Two configured commands share the name "x": both trees match "!x".
    let config = SimpleCommands {
        cooldown: 0,
        commands: vec![
            ("x".to_string(), "one".to_string()),
            ("x".to_string(), "two".to_string()),
        ],
    };
    let mut model = Model::new(&config);
    let actions = model.handle_command_call(call("!x", AuthorityLevel::Viewer));
    assert_eq!(
        actions,
        vec![
            AppAction::Say { message: "one".to_string() },
            AppAction::Say { message: "two".to_string() },
        ]
    );
}

#[test]
fn end_to_end_hello_dispatch() {
    let config = SimpleCommands { cooldown: 30000, commands: vec![] };
    let mut model = Model::new(&config);

    // The hardcoded greeting answers a viewer.
    let first = model.handle_command_call(call("!hello World", AuthorityLevel::Viewer));
    assert_eq!(
        first,
        vec![AppAction::Say { message: "Hi, World ^^".to_string() }]
    );

    // An immediate repeat is on cooldown: silently skipped.
    let second = model.handle_command_call(call("!hello World", AuthorityLevel::Viewer));
    assert_eq!(second, vec![]);

    // Too many arguments: matched syntactically, rejected at conversion,
    // silently skipped.
    let third = model.handle_command_call(call("!hello World Extra", AuthorityLevel::Viewer));
    assert_eq!(third, vec![]);

    // After the cooldown has fully elapsed the greeting fires again.
    model.update(30000);
    let fourth = model.handle_command_call(call("!hello World", AuthorityLevel::Viewer));
    assert_eq!(
        fourth,
        vec![AppAction::Say { message: "Hi, World ^^".to_string() }]
    );
}

#[test]
fn reload_is_broadcaster_only() {
    let config = SimpleCommands { cooldown: 0, commands: vec![] };
    let mut model = Model::new(&config);
    let denied = model.handle_command_call(call("!reload", AuthorityLevel::Moderator));
    assert_eq!(denied, vec![]);
    let granted = model.handle_command_call(call("!reload", AuthorityLevel::Broadcaster));
    assert_eq!(granted, vec![AppAction::ReloadConfig]);
}

#[test]
fn reload_replaces_configured_commands() {
    let config = SimpleCommands {
        cooldown: 0,
        commands: vec![("ping".to_string(), "pong".to_string())],
    };
    let mut model = Model::new(&config);
    assert_eq!(
        model.handle_command_call(call("!ping", AuthorityLevel::Viewer)),
        vec![AppAction::Say { message: "pong".to_string() }]
    );

    let new_config = SimpleCommands {
        cooldown: 0,
        commands: vec![("marco".to_string(), "polo".to_string())],
    };
    model.reload(&new_config);
    assert_eq!(model.handle_command_call(call("!ping", AuthorityLevel::Viewer)), vec![]);
    assert_eq!(
        model.handle_command_call(call("!marco", AuthorityLevel::Viewer)),
        vec![AppAction::Say { message: "polo".to_string() }]
    );
}

#[test]
fn no_match_is_a_silent_no_op() {
    let config = SimpleCommands { cooldown: 0, commands: vec![] };
    let mut model = Model::new(&config);
    assert_eq!(
        model.handle_command_call(call("just chatting", AuthorityLevel::Viewer)),
        vec![]
    );
}

#[test]
fn execute_maps_actions_to_host_actions() {
    let config = SimpleCommands { cooldown: 0, commands: vec![] };
    let mut model = Model::new(&config);
    assert_eq!(
        model.execute(Action::Say("hey".to_string())),
        vec![AppAction::Say { message: "hey".to_string() }]
    );
    assert_eq!(model.execute(Action::ReloadConfig), vec![AppAction::ReloadConfig]);
    assert_eq!(
        model.execute(Action::HandleCommand {
            command: "!bye Chat".to_string(),
            authority: AuthorityLevel::Host,
        }),
        vec![AppAction::Say { message: "cya, Chat!".to_string() }]
    );
}

#[test]
fn default_simple_commands() {
    let config = SimpleCommands::default();
    assert_eq!(config.cooldown, 30000);
    assert!(config.commands.is_empty());
}

#[test]
fn error_descriptions() {
    assert_eq!(ArgsError::TooMany.describe(), "Too many arguments");
    assert_eq!(ArgsError::NotEnough.describe(), "Not enough arguments");
    assert_eq!(CallError::OnCooldown.describe(), "Command is on cooldown");
    assert_eq!(CallError::Unauthorized.describe(), "Unauthorized");
}

#[test]
fn authority_from_badges() {
    assert_eq!(AuthorityLevel::from_badge("subscriber"), AuthorityLevel::Subscriber);
    assert_eq!(AuthorityLevel::from_badge("moderator"), AuthorityLevel::Moderator);
    assert_eq!(AuthorityLevel::from_badge("broadcaster"), AuthorityLevel::Broadcaster);
    assert_eq!(AuthorityLevel::from_badge("vip"), AuthorityLevel::Viewer);
    assert_eq!(AuthorityLevel::from_badges(&strings(&[])), AuthorityLevel::Viewer);
    assert_eq!(
        AuthorityLevel::from_badges(&strings(&["subscriber", "moderator"])),
        AuthorityLevel::Moderator
    );
    assert_eq!(
        AuthorityLevel::from_badges(&strings(&["broadcaster", "subscriber"])),
        AuthorityLevel::Broadcaster
    );
}

#[test]
fn empty_message_matches_nothing() {
    let config = SimpleCommands::default();
    let mut model = Model::new(&config);
    assert_eq!(model.handle_command_call(call("", AuthorityLevel::Host)), vec![]);
}

#[test]
fn huge_tick_evicts_every_window() {
    let mut tree = greeting_tree(30000);
    assert!(tree.parse(call("!hello A", AuthorityLevel::Viewer)).is_ok());
    assert!(tree.parse(call("!hello B", AuthorityLevel::Viewer)).is_ok());
    tree.update(u64::MAX);
    assert!(tree.parse(call("!hello A", AuthorityLevel::Viewer)).is_ok());
    assert!(tree.parse(call("!hello B", AuthorityLevel::Viewer)).is_ok());
}

#[test]
fn configured_command_requires_full_consumption() {
    let config = SimpleCommands {
        cooldown: 0,
        commands: vec![("ping".to_string(), "pong".to_string())],
    };
    let mut model = Model::new(&config);
    assert_eq!(
        model.handle_command_call(call("!ping extra", AuthorityLevel::Viewer)),
        vec![]
    );
}

#[test]
fn host_prompt_commands_pass_every_gate() {
    let config = SimpleCommands::default();
    let mut model = Model::new(&config);
    // The reload command is broadcaster-only; the host outranks that.
    assert_eq!(
        model.handle_command_call(call("!reload", AuthorityLevel::Host)),
        vec![AppAction::ReloadConfig]
    );
}
