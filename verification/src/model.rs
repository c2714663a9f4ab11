//! The application model: the command registry and the chat pane, advanced
//! once per tick and consulted on every input event.

use vstd::prelude::*;

use crate::action::AppAction;
use crate::chat::{scroll_down, scroll_up, Chat, ChatMode};
use crate::commands::init::{is_configured_tree, is_greeting_tree, is_reload_tree};
use crate::commands::action::CommandAction;
use crate::commands::{tick_models, Commands};
use crate::config::SimpleCommands;

verus! {

/// The model: pure, in-memory state. The host performs all I/O and feeds
/// events and time in.
pub struct Model {
    /// Set to false to shut down gracefully.
    pub running: bool,
    pub commands: Commands,
    pub chat: Chat,
}

impl Model {
    /// A fresh model over the given configuration.
    pub fn new(config: &SimpleCommands) -> (r: Self)
        ensures
            r.running,
            r.chat.mode == ChatMode::Normal,
            r.chat.items@ =~= Seq::<crate::chat::ChatItem>::empty(),
            r.chat.selected_item is None,
            r.commands@.hardcoded.len() == 4,
            is_reload_tree(r.commands@.hardcoded[0]),
            is_greeting_tree(r.commands@.hardcoded[1], "!hello"@, CommandAction::Hello),
            is_greeting_tree(r.commands@.hardcoded[2], "!bye"@, CommandAction::Bye),
            is_greeting_tree(r.commands@.hardcoded[3], "!gn"@, CommandAction::GoodNight),
            r.commands@.configured.len() == config.commands@.len(),
            forall|i: int|
                0 <= i < config.commands@.len() ==> is_configured_tree(
                    #[trigger] r.commands@.configured[i],
                    config.commands@[i].0@,
                    config.commands@[i].1@,
                    config.cooldown,
                ),
    {
        Model { running: true, commands: Commands::init(config), chat: Chat::new() }
    }

    /// Reloads the configured command set; everything else is untouched.
    pub fn reload(&mut self, config: &SimpleCommands)
        ensures
            final(self).running == old(self).running,
            final(self).chat == old(self).chat,
            final(self).commands@.hardcoded == old(self).commands@.hardcoded,
            final(self).commands@.configured.len() == config.commands@.len(),
            forall|i: int|
                0 <= i < config.commands@.len() ==> is_configured_tree(
                    #[trigger] final(self).commands@.configured[i],
                    config.commands@[i].0@,
                    config.commands@[i].1@,
                    config.cooldown,
                ),
    {
        self.commands.reload(config);
    }

    /// Advances every cooldown window by `delta_time`; run once per tick,
    /// before that tick's calls are evaluated.
    pub fn update(&mut self, delta_time: u64) -> (r: Vec<AppAction>)
        ensures
            final(self).running == old(self).running,
            final(self).chat == old(self).chat,
            final(self).commands@.configured == tick_models(
                old(self).commands@.configured,
                delta_time,
            ),
            final(self).commands@.hardcoded == tick_models(
                old(self).commands@.hardcoded,
                delta_time,
            ),
            r@ =~= Seq::<AppAction>::empty(),
    {
        self.commands.update(delta_time);
        Vec::new()
    }

    /// Applies one plain key press outside the prompt: `Ctrl-C` asks for
    /// shutdown, `j`, `k` and `G` move the chat scroll selection.
    pub fn handle_char(&mut self, c: char, ctrl: bool)
        ensures
            final(self).commands == old(self).commands,
            final(self).chat.mode == old(self).chat.mode,
            final(self).chat.items == old(self).chat.items,
            final(self).chat.input == old(self).chat.input,
            c == 'c' && ctrl ==> !final(self).running && final(self).chat.selected_item == old(
                self,
            ).chat.selected_item,
            !(c == 'c' && ctrl) ==> final(self).running == old(self).running,
            c == 'j' && !(c == 'c' && ctrl) ==> final(self).chat.selected_item == scroll_down(
                old(self).chat.selected_item,
                old(self).chat.items@.len() as int,
            ),
            c == 'k' && !(c == 'c' && ctrl) ==> final(self).chat.selected_item == scroll_up(
                old(self).chat.selected_item,
                old(self).chat.items@.len() as int,
            ),
            c == 'G' ==> final(self).chat.selected_item is None,
            !(c == 'c' && ctrl) && c != 'j' && c != 'k' && c != 'G' ==> final(self).chat
                .selected_item == old(self).chat.selected_item,
    {
        if c == 'c' && ctrl {
            self.running = false;
        } else if c == 'j' {
            let max = if self.chat.items.len() > 0 {
                self.chat.items.len() - 1
            } else {
                0
            };
            self.chat.selected_item = Some(
                match self.chat.selected_item {
                    Some(i) => if i < max {
                        i + 1
                    } else {
                        max
                    },
                    None => max,
                },
            );
        } else if c == 'k' {
            let max = if self.chat.items.len() > 0 {
                self.chat.items.len() - 1
            } else {
                0
            };
            self.chat.selected_item = Some(
                match self.chat.selected_item {
                    Some(i) => if i > 0 {
                        i - 1
                    } else {
                        0
                    },
                    None => max,
                },
            );
        } else if c == 'G' {
            self.chat.selected_item = None;
        }
    }
}

} // verus!
