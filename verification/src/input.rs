//! A single-line text input box with a cursor, as plain editing state.

use vstd::prelude::*;

use crate::text::push_char;

verus! {

/// A key press, reduced to what the editing state cares about. The host
/// maps its terminal events onto this.
#[derive(Debug, Clone, Copy, PartialEq, Eq, Structural)]
pub enum KeyInput {
    Char(char),
    Enter,
    Esc,
    Backspace,
    Delete,
    Home,
    End,
    Left,
    Right,
    Other,
}

/// A line of text under edit. The cursor is a character index into the
/// content; it is clamped to the content after every edit.
#[derive(Debug, Clone, PartialEq, Eq, Default)]
pub struct InputBox {
    pub content: String,
    /// Cursor position, in characters.
    pub cursor: usize,
}

/// `x` clamped from above to `n`.
pub open spec fn clamp_at(x: int, n: int) -> int {
    if x > n {
        n
    } else {
        x
    }
}

/// What one key does to the input box: the new content and the new cursor.
pub open spec fn spec_input_key(content: Seq<char>, cursor: int, key: KeyInput) -> (
    Seq<char>,
    int,
) {
    match key {
        KeyInput::Char(ch) => {
            let c2 = if cursor <= content.len() {
                content.insert(cursor, ch)
            } else {
                content
            };
            (c2, clamp_at(cursor + 1, c2.len() as int))
        },
        KeyInput::Backspace => {
            let p = if cursor > 0 {
                cursor - 1
            } else {
                0
            };
            let c2 = if p < content.len() {
                content.remove(p)
            } else {
                content
            };
            (c2, clamp_at(cursor, c2.len() as int))
        },
        KeyInput::Delete => {
            let c2 = if cursor < content.len() {
                content.remove(cursor)
            } else {
                content
            };
            (c2, clamp_at(cursor, c2.len() as int))
        },
        KeyInput::Home => (content, 0),
        KeyInput::End => (content, content.len() as int),
        KeyInput::Left => (
            content,
            clamp_at(
                if cursor > 0 {
                    cursor - 1
                } else {
                    0
                },
                content.len() as int,
            ),
        ),
        KeyInput::Right => (content, clamp_at(cursor + 1, content.len() as int)),
        _ => (content, clamp_at(cursor, content.len() as int)),
    }
}

impl InputBox {
    /// An empty input box.
    pub fn new() -> (r: Self)
        ensures
            r.content@ =~= Seq::<char>::empty(),
            r.cursor == 0,
    {
        InputBox { content: String::new(), cursor: 0 }
    }

    /// Takes the content out, leaving the box empty with the cursor at the
    /// start.
    pub fn take(&mut self) -> (r: String)
        ensures
            r@ == old(self).content@,
            final(self).content@ =~= Seq::<char>::empty(),
            final(self).cursor == 0,
    {
        self.cursor = 0;
        let mut out = String::new();
        core::mem::swap(&mut out, &mut self.content);
        out
    }

    /// Clamps the cursor to the content.
    fn check_cursor(&mut self)
        ensures
            final(self).content == old(self).content,
            final(self).cursor == clamp_at(old(self).cursor as int, old(self).content@.len() as int),
    {
        let n = self.content.as_str().unicode_len();
        if self.cursor > n {
            self.cursor = n;
        }
    }

    /// Removes the character at position `pos`, if there is one.
    fn remove(&mut self, pos: usize)
        ensures
            final(self).cursor == old(self).cursor,
            pos < old(self).content@.len() ==> final(self).content@ == old(self).content@.remove(
                pos as int,
            ),
            pos >= old(self).content@.len() ==> final(self).content == old(self).content,
    {
        let n = self.content.as_str().unicode_len();
        if pos < n {
            let mut rebuilt = self.content.as_str().substring_char(0, pos).to_owned();
            rebuilt.append(self.content.as_str().substring_char(pos + 1, n));
            proof {
                assert(rebuilt@ =~= old(self).content@.remove(pos as int));
            }
            self.content = rebuilt;
        }
    }

    /// Inserts `c` at position `pos`, if it is within the content.
    fn insert(&mut self, pos: usize, c: char)
        ensures
            final(self).cursor == old(self).cursor,
            pos <= old(self).content@.len() ==> final(self).content@ == old(self).content@.insert(
                pos as int,
                c,
            ),
            pos > old(self).content@.len() ==> final(self).content == old(self).content,
    {
        let n = self.content.as_str().unicode_len();
        if pos <= n {
            let mut rebuilt = self.content.as_str().substring_char(0, pos).to_owned();
            push_char(&mut rebuilt, c);
            rebuilt.append(self.content.as_str().substring_char(pos, n));
            proof {
                assert(rebuilt@ =~= old(self).content@.insert(pos as int, c));
            }
            self.content = rebuilt;
        }
    }

    /// Applies one key press to the editing state.
    pub fn handle_key(&mut self, key: KeyInput)
        ensures
            final(self).content@ == spec_input_key(
                old(self).content@,
                old(self).cursor as int,
                key,
            ).0,
            final(self).cursor as int == spec_input_key(
                old(self).content@,
                old(self).cursor as int,
                key,
            ).1,
    {
        match key {
            KeyInput::Char(c) => {
                let cursor = self.cursor;
                self.insert(cursor, c);
                let n = self.content.as_str().unicode_len();
                self.cursor = if cursor < n {
                    cursor + 1
                } else {
                    n
                };
            },
            KeyInput::Backspace => {
                let p = if self.cursor > 0 {
                    self.cursor - 1
                } else {
                    0
                };
                self.remove(p);
                self.check_cursor();
            },
            KeyInput::Delete => {
                let cursor = self.cursor;
                self.remove(cursor);
                self.check_cursor();
            },
            KeyInput::Home => {
                self.cursor = 0;
            },
            KeyInput::End => {
                self.cursor = self.content.as_str().unicode_len();
            },
            KeyInput::Left => {
                if self.cursor > 0 {
                    self.cursor = self.cursor - 1;
                }
                self.check_cursor();
            },
            KeyInput::Right => {
                let n = self.content.as_str().unicode_len();
                self.cursor = if self.cursor < n {
                    self.cursor + 1
                } else {
                    n
                };
            },
            _ => {
                self.check_cursor();
            },
        }
    }
}

} // verus!
