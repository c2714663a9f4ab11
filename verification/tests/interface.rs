//! Tests of the chat pane, the input box, the substring search, and the
//! plain value types.

use minmands::action::Action;
use minmands::chat::{Chat, ChatItem, ChatMode};
use minmands::commands::authority::AuthorityLevel;
use minmands::config::SimpleCommands;
use minmands::input::{InputBox, KeyInput};
use minmands::model::Model;
use minmands::search::find_all_substr;
use minmands::secret::{SecretClient, Secrets};
use minmands::token::Scope;

#[test]
fn test_find_all_substr() {
    assert_eq!(
        find_all_substr("Very cool string of CoOl words", "cool"),
        vec!["Very ", "cool", " string of ", "CoOl", " words"]
    );
}

#[test]
fn find_all_substr_no_match() {
    assert_eq!(find_all_substr("nothing here", "xyz"), vec!["nothing here"]);
}

#[test]
fn find_all_substr_match_at_start_and_end() {
    assert_eq!(find_all_substr("AbcxAB", "ab"), vec!["", "Ab", "cx", "AB"]);
}

#[test]
fn input_box_editing() {
    let mut input = InputBox::new();
    for c in "helo".chars() {
        input.handle_key(KeyInput::Char(c));
    }
    assert_eq!(input.content, "helo");
    assert_eq!(input.cursor, 4);

    input.handle_key(KeyInput::Left);
    input.handle_key(KeyInput::Char('l'));
    assert_eq!(input.content, "hello");
    assert_eq!(input.cursor, 4);

    input.handle_key(KeyInput::Home);
    assert_eq!(input.cursor, 0);
    input.handle_key(KeyInput::Delete);
    assert_eq!(input.content, "ello");

    input.handle_key(KeyInput::End);
    input.handle_key(KeyInput::Backspace);
    assert_eq!(input.content, "ell");
    assert_eq!(input.cursor, 3);
    input.handle_key(KeyInput::Left);
    input.handle_key(KeyInput::Backspace);
    assert_eq!(input.content, "el");

    let taken = input.take();
    assert_eq!(taken, "el");
    assert_eq!(input.content, "");
    assert_eq!(input.cursor, 0);
}

#[test]
fn chat_scrolling_and_modes() {
    let mut chat = Chat::new();
    chat.items.push(ChatItem::Event("a".to_string()));
    chat.items.push(ChatItem::Event("b".to_string()));
    chat.items.push(ChatItem::Event("c".to_string()));

    assert_eq!(chat.selected_item, None);
    chat.handle_key(KeyInput::Char('k'));
    assert_eq!(chat.selected_item, Some(2));
    chat.handle_key(KeyInput::Char('k'));
    assert_eq!(chat.selected_item, Some(1));
    chat.handle_key(KeyInput::Char('j'));
    assert_eq!(chat.selected_item, Some(2));
    chat.handle_key(KeyInput::Char('j'));
    assert_eq!(chat.selected_item, Some(2));
    chat.handle_key(KeyInput::Char('G'));
    assert_eq!(chat.selected_item, None);

    chat.handle_key(KeyInput::Char('i'));
    assert_eq!(chat.mode, ChatMode::Insert);
    chat.handle_key(KeyInput::Esc);
    assert_eq!(chat.mode, ChatMode::Normal);
}

#[test]
fn chat_prompt_submits_host_command() {
    let mut chat = Chat::new();
    chat.handle_key(KeyInput::Char('i'));
    for c in "!hello Chat".chars() {
        chat.handle_key(KeyInput::Char(c));
    }
    let actions = chat.handle_key(KeyInput::Enter);
    assert_eq!(
        actions,
        vec![Action::HandleCommand {
            command: "!hello Chat".to_string(),
            authority: AuthorityLevel::Host,
        }]
    );
    assert_eq!(chat.input.content, "");
    match chat.items.last().unwrap() {
        ChatItem::Message(m) => {
            assert_eq!(m.sender_name, "Host");
            assert_eq!(m.text, "!hello Chat");
        }
        other => panic!("expected a message, got {:?}", other),
    }
}

#[test]
fn model_handle_char() {
    let config = SimpleCommands::default();
    let mut model = Model::new(&config);
    assert!(model.running);

    model.chat.items.push(ChatItem::Event("x".to_string()));
    model.chat.items.push(ChatItem::Event("y".to_string()));
    model.handle_char('j', false);
    assert_eq!(model.chat.selected_item, Some(1));
    model.handle_char('k', false);
    assert_eq!(model.chat.selected_item, Some(0));
    model.handle_char('G', false);
    assert_eq!(model.chat.selected_item, None);

    model.handle_char('c', false);
    assert!(model.running);
    model.handle_char('c', true);
    assert!(!model.running);
}

#[test]
fn scope_round_trip() {
    let scope = Scope::new("chat:read");
    assert_eq!(scope.as_str(), "chat:read");
}

#[test]
fn secrets_hold_plain_values() {
    let secrets = Secrets {
        client: SecretClient {
            client_id: "id".to_string(),
            client_secret: "shh".to_string(),
        },
    };
    assert_eq!(secrets.client.client_id, "id");
}
