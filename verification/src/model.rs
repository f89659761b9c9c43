//! What the editor is, as a mathematical value, and what each operation makes of it.

use vstd::prelude::*;

use crate::rows::{duplicate_rows, moved_up, repeat_rows, without_rows};
use crate::text::{after, before, byte_len, decimal, on_boundary, split_lines};

verus! {

/// A key, as far as the editor tells keys apart.
#[derive(Debug, Clone, Copy, PartialEq, Eq, Structural)]
pub enum KeyCode {
    Up,
    Down,
    Left,
    Right,
    Enter,
    Backspace,
    Esc,
    F(u8),
    Char(char),
    Other,
}

/// The lines of a text, and the cursor in it. The column counts bytes.
#[verifier::ext_equal]
pub struct Document {
    pub lines: Seq<Seq<char>>,
    pub cursor_row: int,
    pub cursor_col: int,
}

/// Everything that the editor holds.
#[verifier::ext_equal]
pub struct EditorView {
    pub document: Document,
    pub scroll_offset: int,
    pub terminal_height: int,
    pub terminal_width: int,
    pub duplicates: Set<usize>,
    pub missing_emotes: Set<usize>,
    pub status_message: Seq<char>,
    pub filename: Seq<char>,
    pub modified: bool,
    pub last_screen_hash: u64,
    pub checking_urls: bool,
    pub check_progress: (int, int),
    pub undo_stack: Seq<Document>,
    pub redo_stack: Seq<Document>,
    pub max_undo_size: int,
}

impl Document {
    /// Whether the cursor stands on one of the lines.
    pub open spec fn on_line(self) -> bool {
        0 <= self.cursor_row < self.lines.len()
    }

    /// Whether the cursor stands on one of the lines, or at the top where there is none.
    pub open spec fn in_range(self) -> bool {
        self.on_line() || (self.lines.len() == 0 && self.cursor_row == 0)
    }

    /// The line under the cursor.
    pub open spec fn line(self) -> Seq<char> {
        self.lines[self.cursor_row]
    }

    /// The number of bytes on row `row`, none where there is no such row.
    pub open spec fn line_len(self, row: int) -> int {
        if 0 <= row < self.lines.len() {
            byte_len(self.lines[row])
        } else {
            0
        }
    }

    /// Whether a character can go in at the cursor: not into the middle of another one.
    pub open spec fn can_insert(self) -> bool {
        self.on_line() && self.cursor_col <= byte_len(self.line()) ==> on_boundary(
            self.line(),
            self.cursor_col,
        )
    }

    /// Whether there is a character to take out where the byte in front of the cursor is.
    pub open spec fn can_delete(self) -> bool {
        self.on_line() && 0 < self.cursor_col <= byte_len(self.line()) ==> on_boundary(
            self.line(),
            self.cursor_col - 1,
        )
    }

    /// Whether the line can be taken apart at the cursor.
    pub open spec fn can_split(self) -> bool {
        self.on_line() ==> on_boundary(self.line(), self.cursor_col)
    }

    /// `c` goes in at the cursor, which moves on by one byte. A cursor beyond the end of its
    /// line puts nothing in.
    pub open spec fn insert_char(self, c: char) -> Document {
        if self.cursor_col <= byte_len(self.line()) {
            Document {
                lines: self.lines.update(
                    self.cursor_row,
                    before(self.line(), self.cursor_col).push(c) + after(
                        self.line(),
                        self.cursor_col,
                    ),
                ),
                cursor_col: self.cursor_col + 1,
                ..self
            }
        } else {
            self
        }
    }

    /// The character that starts at the byte in front of the cursor goes. At the start of a
    /// line, the line goes to the end of the one above.
    pub open spec fn delete_char(self) -> Document {
        if 0 < self.cursor_col <= byte_len(self.line()) {
            Document {
                lines: self.lines.update(
                    self.cursor_row,
                    before(self.line(), self.cursor_col - 1) + after(
                        self.line(),
                        self.cursor_col - 1,
                    ).drop_first(),
                ),
                cursor_col: self.cursor_col - 1,
                ..self
            }
        } else if self.cursor_col == 0 && self.cursor_row > 0 {
            Document {
                lines: self.lines.remove(self.cursor_row).update(
                    self.cursor_row - 1,
                    self.lines[self.cursor_row - 1] + self.line(),
                ),
                cursor_row: self.cursor_row - 1,
                cursor_col: byte_len(self.lines[self.cursor_row - 1]),
            }
        } else {
            self
        }
    }

    /// The line is taken apart at the cursor, which goes to the start of the second part.
    pub open spec fn insert_newline(self) -> Document {
        Document {
            lines: self.lines.update(
                self.cursor_row,
                before(self.line(), self.cursor_col),
            ).insert(self.cursor_row + 1, after(self.line(), self.cursor_col)),
            cursor_row: self.cursor_row + 1,
            cursor_col: 0,
        }
    }

    /// The cursor on row `row`, no further right than the end of it.
    pub open spec fn on_row(self, row: int) -> Document {
        Document {
            cursor_row: row,
            cursor_col: if self.cursor_col > self.line_len(row) {
                self.line_len(row)
            } else {
                self.cursor_col
            },
            ..self
        }
    }

    /// The cursor one step in the direction of an arrow key. Left and right go on to the
    /// neighbouring line at either end.
    pub open spec fn move_cursor(self, direction: KeyCode) -> Document {
        match direction {
            KeyCode::Up => if self.cursor_row > 0 {
                self.on_row(self.cursor_row - 1)
            } else {
                self
            },
            KeyCode::Down => if self.cursor_row < self.lines.len() - 1 {
                self.on_row(self.cursor_row + 1)
            } else {
                self
            },
            KeyCode::Left => if self.cursor_col > 0 {
                Document { cursor_col: self.cursor_col - 1, ..self }
            } else if self.cursor_row > 0 {
                Document {
                    cursor_row: self.cursor_row - 1,
                    cursor_col: self.line_len(self.cursor_row - 1),
                    ..self
                }
            } else {
                self
            },
            KeyCode::Right => if self.cursor_col < self.line_len(self.cursor_row) {
                Document { cursor_col: self.cursor_col + 1, ..self }
            } else if self.cursor_row < self.lines.len() - 1 {
                Document { cursor_row: self.cursor_row + 1, cursor_col: 0, ..self }
            } else {
                self
            },
            _ => self,
        }
    }

    /// The lines without `rows`. The cursor stays with its line as far as that is there.
    pub open spec fn remove_rows(self, rows: Set<usize>) -> Document {
        Document {
            lines: without_rows(self.lines, rows),
            cursor_row: moved_up(self.cursor_row, rows, self.lines.len() as int),
            ..self
        }
    }
}

impl EditorView {
    /// The editor with another status message.
    pub open spec fn says(self, message: Seq<char>) -> EditorView {
        EditorView { status_message: message, ..self }
    }

    /// The editor with its duplicate rows found anew.
    pub open spec fn check_duplicates(self) -> EditorView {
        EditorView { duplicates: duplicate_rows(self.document.lines), ..self }
    }

    /// The editor with a changed document.
    pub open spec fn changed(self, document: Document) -> EditorView {
        EditorView { document, modified: true, ..self }.check_duplicates()
    }

    /// The editor with its document put away for undo. The oldest entry goes when there are
    /// too many, and there is nothing left to redo.
    pub open spec fn save_state(self) -> EditorView {
        let pushed = self.undo_stack.push(self.document);
        EditorView {
            undo_stack: if pushed.len() > self.max_undo_size {
                pushed.drop_first()
            } else {
                pushed
            },
            redo_stack: seq![],
            ..self
        }
    }

    /// The document last put away comes back, and the present one can be redone.
    pub open spec fn undo(self) -> EditorView {
        if self.undo_stack.len() > 0 {
            EditorView {
                undo_stack: self.undo_stack.drop_last(),
                redo_stack: self.redo_stack.push(self.document),
                ..self
            }.changed(self.undo_stack.last()).says("undo"@)
        } else {
            self.says("nothing to undo"@)
        }
    }

    /// The document last undone comes back, and the present one can be undone.
    pub open spec fn redo(self) -> EditorView {
        if self.redo_stack.len() > 0 {
            EditorView {
                redo_stack: self.redo_stack.drop_last(),
                undo_stack: self.undo_stack.push(self.document),
                ..self
            }.changed(self.redo_stack.last()).says("redo"@)
        } else {
            self.says("nothing to redo"@)
        }
    }

    /// `c` typed at the cursor.
    pub open spec fn insert_char(self, c: char) -> EditorView {
        if !self.document.on_line() {
            self
        } else if self.document.cursor_col <= byte_len(self.document.line()) {
            self.save_state().changed(self.document.insert_char(c))
        } else {
            self.save_state()
        }
    }

    /// Backspace at the cursor.
    pub open spec fn delete_char(self) -> EditorView {
        if !self.document.on_line() {
            self
        } else if 0 < self.document.cursor_col <= byte_len(self.document.line()) || (
        self.document.cursor_col == 0 && self.document.cursor_row > 0) {
            self.save_state().changed(self.document.delete_char())
        } else {
            self.save_state()
        }
    }

    /// Enter at the cursor.
    pub open spec fn insert_newline(self) -> EditorView {
        if !self.document.on_line() {
            self
        } else {
            self.save_state().changed(self.document.insert_newline())
        }
    }

    /// An arrow key.
    pub open spec fn move_cursor(self, direction: KeyCode) -> EditorView {
        EditorView { document: self.document.move_cursor(direction), ..self }
    }

    /// Every row that repeats the address of a row above goes.
    pub open spec fn remove_duplicates(self) -> EditorView {
        let repeats = repeat_rows(self.document.lines);
        self.changed(self.document.remove_rows(repeats)).says(
            "removed "@ + decimal(repeats.len() as int) + " duplicate(s)"@,
        )
    }

    /// Every row that was found missing goes.
    pub open spec fn remove_missing_emotes(self) -> EditorView {
        if self.missing_emotes.len() > 0 {
            EditorView { missing_emotes: set![], ..self }.changed(
                self.document.remove_rows(self.missing_emotes),
            ).says("removed "@ + decimal(self.missing_emotes.len() as int) + " 404 emote(s)"@)
        } else {
            self
        }
    }

    /// The editor as it starts, on a terminal of the given size.
    pub open spec fn start(width: int, height: int) -> EditorView {
        EditorView {
            document: Document { lines: seq![seq![]], cursor_row: 0, cursor_col: 0 },
            scroll_offset: 0,
            terminal_height: height,
            terminal_width: width,
            duplicates: set![],
            missing_emotes: set![],
            status_message: "welcome to moaremotes emote thing!! press F1 for help"@,
            filename: "emotes.json"@,
            modified: false,
            last_screen_hash: 0,
            checking_urls: false,
            check_progress: (0, 0),
            undo_stack: seq![],
            redo_stack: seq![],
            max_undo_size: 100,
        }
    }

    /// The text replaced by `content`, the cursor and the view at the top of it.
    pub open spec fn show(self, content: Seq<char>) -> EditorView {
        EditorView {
            document: Document { lines: loaded_lines(content), cursor_row: 0, cursor_col: 0 },
            scroll_offset: 0,
            modified: false,
            ..self
        }.check_duplicates()
    }

    /// What comes of reading `content`, where `objection` is what is wrong with it as JSON.
    /// A text that is not JSON changes nothing.
    pub open spec fn load(self, content: Seq<char>, objection: Option<Seq<char>>) -> (
        EditorView,
        Result<(), Seq<char>>,
    ) {
        match objection {
            None => (self.show(content), Ok(())),
            Some(error) => (self, Err("invalid json: "@ + error)),
        }
    }

    /// What comes of reading the file `path`, where `read` is its content or why it could not
    /// be read.
    pub open spec fn load_from_file(
        self,
        path: Seq<char>,
        read: Result<Seq<char>, Seq<char>>,
        objection: Option<Seq<char>>,
    ) -> (EditorView, Result<(), Seq<char>>) {
        match read {
            Ok(content) => match self.load(content, objection) {
                (loaded, Ok(_)) => (
                    EditorView { filename: path, ..loaded }.says("loaded from "@ + path),
                    Ok(()),
                ),
                refused => refused,
            },
            Err(error) => (self, Err("failed to read file "@ + path + ": "@ + error)),
        }
    }

    /// What comes of having written the file, or of having failed to.
    pub open spec fn save_written(self, written: Result<(), Seq<char>>) -> (
        EditorView,
        Result<(), Seq<char>>,
    ) {
        match written {
            Ok(_) => (
                EditorView { modified: false, ..self }.says("saved to "@ + self.filename),
                Ok(()),
            ),
            Err(error) => (self, Err("failed to save: "@ + error)),
        }
    }
}

/// The lines that `content` is shown as: at least one.
pub open spec fn loaded_lines(content: Seq<char>) -> Seq<Seq<char>> {
    if split_lines(content).len() == 0 {
        seq![seq![]]
    } else {
        split_lines(content)
    }
}

} // verus!
