//! What each key does.

use vstd::prelude::*;

use crate::editor::Moaremotes;
use crate::model::{EditorView, KeyCode};
use crate::screen::help_text;
use crate::text::{is_boundary, len_in_bytes, texts};

verus! {

broadcast use vstd::std_specs::hash::group_hash_axioms;

/// What is left to do outside of the editor once a key is handled.
#[derive(Debug, Clone, Copy, PartialEq, Eq, Structural)]
pub enum Action {
    Nothing,
    Refresh,
    Save,
    CheckMissing,
    PromptLoad,
    Quit,
}

/// A key event.
#[derive(Debug, Clone, Copy, PartialEq, Eq, Structural)]
pub struct Key {
    pub code: KeyCode,
    pub control: bool,
    pub alt: bool,
    /// Whether the key went down, rather than up or on repeating.
    pub pressed: bool,
}

impl Key {
    /// The character that the key types, where it types one.
    pub open spec fn typed(self) -> Option<char> {
        match self.code {
            KeyCode::Char(c) => if self.control || self.alt {
                None
            } else {
                Some(c)
            },
            _ => None,
        }
    }
}

impl EditorView {
    /// Whether a key finds the cursor where it can do its work.
    pub open spec fn takes(self, key: Key) -> bool {
        key.pressed ==> match key.code {
            KeyCode::Char(_) => key.typed() is Some ==> self.document.can_insert(),
            KeyCode::Enter => self.document.can_split(),
            KeyCode::Backspace => self.document.can_delete(),
            KeyCode::Down | KeyCode::Right => self.document.lines.len() > 0,
            _ => true,
        }
    }

    /// What a key does, and what it leaves to be done.
    pub open spec fn press(self, key: Key) -> (EditorView, Action) {
        if !key.pressed {
            (self, Action::Nothing)
        } else {
            match key.code {
                KeyCode::F(n) => self.press_function(n),
                KeyCode::Char(c) => if key.control {
                    if c == 'z' {
                        (self.undo(), Action::Nothing)
                    } else if c == 'y' {
                        (self.redo(), Action::Nothing)
                    } else {
                        (self, Action::Nothing)
                    }
                } else if key.alt {
                    (self, Action::Nothing)
                } else {
                    (self.insert_char(c), Action::Nothing)
                },
                KeyCode::Enter => (self.insert_newline(), Action::Nothing),
                KeyCode::Backspace => (self.delete_char(), Action::Nothing),
                KeyCode::Up | KeyCode::Down | KeyCode::Left | KeyCode::Right => {
                    let moved = self.move_cursor(key.code);
                    (
                        moved,
                        if moved.document == self.document {
                            Action::Nothing
                        } else {
                            Action::Refresh
                        },
                    )
                },
                KeyCode::Esc => (self.says("press F10 to quit"@), Action::Nothing),
                KeyCode::Other => (self, Action::Nothing),
            }
        }
    }

    /// What a function key does, and what it leaves to be done.
    pub open spec fn press_function(self, n: u8) -> (EditorView, Action) {
        if n == 1 {
            (self.says(help_text()), Action::Nothing)
        } else if n == 2 {
            (self, Action::Save)
        } else if n == 3 {
            (self.remove_duplicates(), Action::Nothing)
        } else if n == 4 {
            (
                self,
                if self.checking_urls {
                    Action::Nothing
                } else {
                    Action::CheckMissing
                },
            )
        } else if n == 5 {
            if self.missing_emotes.len() > 0 {
                (self.remove_missing_emotes(), Action::Nothing)
            } else {
                (
                    self.says("no missing emotes to remove,  press F4 to check first!!11!"@),
                    Action::Nothing,
                )
            }
        } else if n == 6 {
            (self, Action::PromptLoad)
        } else if n == 10 {
            (self, Action::Quit)
        } else {
            (self, Action::Nothing)
        }
    }
}

impl Moaremotes {
    /// Whether a key finds the cursor where it can do its work.
    pub fn takes_key(&self, key: Key) -> (b: bool)
        ensures
            b == self@.takes(key),
    {
        if !key.pressed {
            return true;
        }
        let row: usize = self.cursor_row;
        let col: usize = self.cursor_col;
        let on_line = row < self.lines.len();
        assert(on_line ==> texts(self.lines@)[row as int] == self.lines@[row as int]@);
        match key.code {
            KeyCode::Char(_) => key.control || key.alt || !on_line || col > len_in_bytes(
                self.lines[row].as_str(),
            ) || is_boundary(self.lines[row].as_str(), col),
            KeyCode::Enter => !on_line || is_boundary(self.lines[row].as_str(), col),
            KeyCode::Backspace => !on_line || col == 0 || col > len_in_bytes(
                self.lines[row].as_str(),
            ) || is_boundary(self.lines[row].as_str(), col - 1),
            KeyCode::Down | KeyCode::Right => self.lines.len() > 0,
            _ => true,
        }
    }

    /// Handles a key.
    pub fn handle_key(&mut self, key: Key) -> (action: Action)
        requires
            old(self)@.takes(key),
        ensures
            (final(self)@, action) == old(self)@.press(key),
    {
        if !key.pressed {
            return Action::Nothing;
        }
        match key.code {
            KeyCode::F(n) => self.handle_function_key(n),
            KeyCode::Char(c) => {
                if key.control {
                    if c == 'z' {
                        self.undo();
                    } else if c == 'y' {
                        self.redo();
                    }
                } else if !key.alt {
                    self.insert_char(c);
                }
                Action::Nothing
            },
            KeyCode::Enter => {
                self.insert_newline();
                Action::Nothing
            },
            KeyCode::Backspace => {
                self.delete_char();
                Action::Nothing
            },
            KeyCode::Up | KeyCode::Down | KeyCode::Left | KeyCode::Right => {
                let prev_row: usize = self.cursor_row;
                let prev_col: usize = self.cursor_col;
                self.move_cursor(key.code);
                if prev_row != self.cursor_row || prev_col != self.cursor_col {
                    Action::Refresh
                } else {
                    Action::Nothing
                }
            },
            KeyCode::Esc => {
                self.status_message = "press F10 to quit".to_owned();
                Action::Nothing
            },
            KeyCode::Other => Action::Nothing,
        }
    }

    /// Handles a function key.
    fn handle_function_key(&mut self, n: u8) -> (action: Action)
        ensures
            (final(self)@, action) == old(self)@.press_function(n),
    {
        match n {
            1 => {
                self.show_help();
                Action::Nothing
            },
            2 => Action::Save,
            3 => {
                self.remove_duplicates();
                Action::Nothing
            },
            4 => if self.checking_urls {
                Action::Nothing
            } else {
                Action::CheckMissing
            },
            5 => {
                if self.missing_emotes.len() > 0 {
                    self.remove_missing_emotes();
                } else {
                    self.status_message =
                    "no missing emotes to remove,  press F4 to check first!!11!".to_owned();
                }
                Action::Nothing
            },
            6 => Action::PromptLoad,
            10 => Action::Quit,
            _ => Action::Nothing,
        }
    }
}

} // verus!
