//! The chat pane's state: the item list, the scroll selection, and the
//! host's command prompt.

use vstd::prelude::*;

use crate::action::Action;
use crate::commands::authority::AuthorityLevel;
use crate::input::{InputBox, KeyInput};

verus! {

/// One entry of the chat pane.
#[derive(Debug, Clone, PartialEq, Eq)]
pub enum ChatItem {
    Message(ChatMessage),
    Event(String),
}

/// A chat message: who said what.
#[derive(Debug, Clone, PartialEq, Eq)]
pub struct ChatMessage {
    pub sender_name: String,
    pub text: String,
}

/// How key presses are interpreted.
#[derive(Debug, Clone, Copy, PartialEq, Eq, Structural)]
pub enum ChatMode {
    /// Scroll through messages.
    Normal,
    /// Insert text into the command prompt.
    Insert,
}

/// The chat pane.
#[derive(Debug)]
pub struct Chat {
    pub mode: ChatMode,
    pub items: Vec<ChatItem>,
    pub selected_item: Option<usize>,
    /// Input line for the host to issue commands at
    /// [`Host`](AuthorityLevel::Host) authority.
    pub input: InputBox,
}

/// The scroll position after moving one step down: toward the latest item,
/// clamped to the last index; an empty list pins it at zero.
pub open spec fn scroll_down(sel: Option<usize>, len: int) -> Option<usize> {
    let max = if len > 0 {
        len - 1
    } else {
        0
    };
    match sel {
        Some(i) => Some((if i as int + 1 < max {
            i as int + 1
        } else {
            max
        }) as usize),
        None => Some(max as usize),
    }
}

/// The scroll position after moving one step up.
pub open spec fn scroll_up(sel: Option<usize>, len: int) -> Option<usize> {
    let max = if len > 0 {
        len - 1
    } else {
        0
    };
    match sel {
        Some(i) => Some((if i as int > 0 {
            i as int - 1
        } else {
            0
        }) as usize),
        None => Some(max as usize),
    }
}

impl Chat {
    /// An empty chat pane in scroll mode.
    pub fn new() -> (r: Self)
        ensures
            r.mode == ChatMode::Normal,
            r.items@ =~= Seq::<ChatItem>::empty(),
            r.selected_item is None,
            r.input.content@ =~= Seq::<char>::empty(),
            r.input.cursor == 0,
    {
        Chat {
            mode: ChatMode::Normal,
            items: Vec::new(),
            selected_item: None,
            input: InputBox::new(),
        }
    }

    /// Applies one key press, interpreted by the current mode, and returns
    /// the actions it asks of the model.
    pub fn handle_key(&mut self, key: KeyInput) -> (r: Vec<Action>)
        ensures
            old(self).mode == ChatMode::Normal ==> normal_key(*old(self), key, *final(self))
                && r@ =~= Seq::<Action>::empty(),
            old(self).mode == ChatMode::Insert ==> insert_key(*old(self), key, *final(self), r@),
    {
        match self.mode {
            ChatMode::Normal => self.handle_key_normal(key),
            ChatMode::Insert => self.handle_key_insert(key),
        }
    }

    fn handle_key_normal(&mut self, key: KeyInput) -> (r: Vec<Action>)
        requires
            old(self).mode == ChatMode::Normal,
        ensures
            normal_key(*old(self), key, *final(self)),
            r@ =~= Seq::<Action>::empty(),
    {
        match key {
            KeyInput::Char(c) => {
                if c == 'j' {
                    let max = if self.items.len() > 0 {
                        self.items.len() - 1
                    } else {
                        0
                    };
                    self.selected_item = Some(
                        match self.selected_item {
                            Some(i) => if i < max {
                                i + 1
                            } else {
                                max
                            },
                            None => max,
                        },
                    );
                } else if c == 'k' {
                    let max = if self.items.len() > 0 {
                        self.items.len() - 1
                    } else {
                        0
                    };
                    self.selected_item = Some(
                        match self.selected_item {
                            Some(i) => if i > 0 {
                                i - 1
                            } else {
                                0
                            },
                            None => max,
                        },
                    );
                } else if c == 'G' {
                    self.selected_item = None;
                } else if c == 'i' {
                    self.mode = ChatMode::Insert;
                }
            },
            _ => {},
        }
        Vec::new()
    }

    fn handle_key_insert(&mut self, key: KeyInput) -> (r: Vec<Action>)
        requires
            old(self).mode == ChatMode::Insert,
        ensures
            insert_key(*old(self), key, *final(self), r@),
    {
        let mut actions: Vec<Action> = Vec::new();
        match key {
            KeyInput::Esc => {
                self.mode = ChatMode::Normal;
            },
            KeyInput::Enter => {
                let command = self.input.take();
                let ghost cmd_view = command@;
                let mut text = String::new();
                text.append(command.as_str());
                proof {
                    assert(text@ =~= cmd_view);
                }
                let ghost pre_items = self.items@;
                self.items.push(
                    ChatItem::Message(ChatMessage { sender_name: "Host".to_owned(), text }),
                );
                proof {
                    assert(self.items@.take(pre_items.len() as int) =~= pre_items);
                }
                actions.push(
                    Action::HandleCommand { command, authority: AuthorityLevel::Host },
                );
            },
            _ => {
                self.input.handle_key(key);
            },
        }
        actions
    }
}

/// What one key does in scroll mode: `j` and `k` move the selection, `G`
/// clears it, `i` enters insert mode, and anything else does nothing.
pub open spec fn normal_key(pre: Chat, key: KeyInput, post: Chat) -> bool {
    &&& post.items == pre.items
    &&& post.input == pre.input
    &&& match key {
        KeyInput::Char(c) => if c == 'j' {
            post.mode == pre.mode && post.selected_item == scroll_down(
                pre.selected_item,
                pre.items@.len() as int,
            )
        } else if c == 'k' {
            post.mode == pre.mode && post.selected_item == scroll_up(
                pre.selected_item,
                pre.items@.len() as int,
            )
        } else if c == 'G' {
            post.mode == pre.mode && post.selected_item is None
        } else if c == 'i' {
            post.mode == ChatMode::Insert && post.selected_item == pre.selected_item
        } else {
            post == pre
        },
        _ => post == pre,
    }
}

/// What one key does in insert mode: `Esc` leaves insert mode, `Enter`
/// submits the prompt as a `Host` command and echoes it as a chat message,
/// and anything else edits the prompt.
pub open spec fn insert_key(pre: Chat, key: KeyInput, post: Chat, actions: Seq<Action>) -> bool {
    match key {
        KeyInput::Esc => {
            &&& post == (Chat { mode: ChatMode::Normal, ..pre })
            &&& actions =~= Seq::<Action>::empty()
        },
        KeyInput::Enter => {
            &&& post.mode == pre.mode
            &&& post.selected_item == pre.selected_item
            &&& post.input.content@ =~= Seq::<char>::empty()
            &&& post.input.cursor == 0
            &&& post.items@.len() == pre.items@.len() + 1
            &&& post.items@.take(pre.items@.len() as int) == pre.items@
            &&& (post.items@.last() matches ChatItem::Message(m) && m.sender_name@ == "Host"@
                && m.text@ == pre.input.content@)
            &&& actions.len() == 1
            &&& (actions[0] matches Action::HandleCommand { command, authority }
                && command@ == pre.input.content@ && authority == AuthorityLevel::Host)
        },
        _ => {
            &&& post.mode == pre.mode
            &&& post.selected_item == pre.selected_item
            &&& post.items == pre.items
            &&& post.input.content@ == crate::input::spec_input_key(
                pre.input.content@,
                pre.input.cursor as int,
                key,
            ).0
            &&& post.input.cursor as int == crate::input::spec_input_key(
                pre.input.content@,
                pre.input.cursor as int,
                key,
            ).1
            &&& actions =~= Seq::<Action>::empty()
        },
    }
}

} // verus!
