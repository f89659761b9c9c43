//! The editor and what can be done to its text.

use std::collections::HashSet;
use vstd::prelude::*;
use vstd::string::StringExecFns;

use crate::model::{Document, EditorView, KeyCode};
use crate::rows::{ascending, find_duplicates, find_repeats, lemma_same_rows, remove_rows};
use crate::text::{
    chars_of, lemma_byte_len_positive, lemma_concat_splits, lemma_split, len_in_bytes,
    push_decimal, split, string_of, texts,
};
use crate::url::{extract_url, url_of};

verus! {

broadcast use vstd::std_specs::hash::group_hash_axioms;

/// A text and the cursor in it, put away for undo or redo.
#[derive(Debug, Clone)]
pub struct EditorState {
    pub lines: Vec<String>,
    pub cursor_row: usize,
    pub cursor_col: usize,
}

/// An emote list under edit.
#[derive(Debug)]
pub struct Moaremotes {
    pub lines: Vec<String>,
    pub cursor_row: usize,
    pub cursor_col: usize,
    pub scroll_offset: usize,
    pub terminal_height: usize,
    pub terminal_width: usize,
    pub duplicates: HashSet<usize>,
    pub missing_emotes: HashSet<usize>,
    pub status_message: String,
    pub filename: String,
    pub modified: bool,
    pub last_screen_hash: u64,
    pub checking_urls: bool,
    pub check_progress: (usize, usize),
    pub undo_stack: Vec<EditorState>,
    pub redo_stack: Vec<EditorState>,
    pub max_undo_size: usize,
}

impl View for EditorState {
    type V = Document;

    open spec fn view(&self) -> Document {
        Document {
            lines: texts(self.lines@),
            cursor_row: self.cursor_row as int,
            cursor_col: self.cursor_col as int,
        }
    }
}

/// The documents that a stack of states holds.
pub open spec fn documents(stack: Seq<EditorState>) -> Seq<Document> {
    Seq::new(stack.len(), |i: int| stack[i]@)
}

impl View for Moaremotes {
    type V = EditorView;

    open spec fn view(&self) -> EditorView {
        EditorView {
            document: Document {
                lines: texts(self.lines@),
                cursor_row: self.cursor_row as int,
                cursor_col: self.cursor_col as int,
            },
            scroll_offset: self.scroll_offset as int,
            terminal_height: self.terminal_height as int,
            terminal_width: self.terminal_width as int,
            duplicates: self.duplicates@,
            missing_emotes: self.missing_emotes@,
            status_message: self.status_message@,
            filename: self.filename@,
            modified: self.modified,
            last_screen_hash: self.last_screen_hash,
            checking_urls: self.checking_urls,
            check_progress: (self.check_progress.0 as int, self.check_progress.1 as int),
            undo_stack: documents(self.undo_stack@),
            redo_stack: documents(self.redo_stack@),
            max_undo_size: self.max_undo_size as int,
        }
    }
}

/// A copy of the lines.
fn copy_lines(lines: &Vec<String>) -> (copy: Vec<String>)
    ensures
        texts(copy@) == texts(lines@),
{
    let copy = lines.clone();
    assert(texts(copy@) =~= texts(lines@));
    copy
}

impl Moaremotes {
    /// The text and the cursor as they are now.
    fn current_state(&self) -> (state: EditorState)
        ensures
            state@ == self@.document,
    {
        EditorState {
            lines: copy_lines(&self.lines),
            cursor_row: self.cursor_row,
            cursor_col: self.cursor_col,
        }
    }

    /// The address on a line, where there is one.
    pub fn extract_url_from_line(&self, line: &str) -> (url: Option<String>)
        ensures
            match url {
                Some(u) => url_of(line@) == Some(u@),
                None => url_of(line@) is None,
            },
    {
        extract_url(line)
    }

    /// Finds the rows whose address another row holds too.
    pub fn check_duplicates(&mut self)
        ensures
            final(self)@ == old(self)@.check_duplicates(),
    {
        self.duplicates = find_duplicates(&self.lines);
    }

    /// Puts the text and the cursor away for undo.
    pub fn save_state(&mut self)
        ensures
            final(self)@ == old(self)@.save_state(),
    {
        let state = self.current_state();
        self.undo_stack.push(state);
        assert(documents(self.undo_stack@) =~= old(self)@.undo_stack.push(old(self)@.document));
        if self.undo_stack.len() > self.max_undo_size {
            self.undo_stack.remove(0);
        }
        self.redo_stack.clear();
        assert(self@ =~= old(self)@.save_state());
    }

    /// Takes back the last change.
    pub fn undo(&mut self)
        ensures
            final(self)@ == old(self)@.undo(),
    {
        match self.undo_stack.pop() {
            Some(state) => {
                let current = self.current_state();
                self.redo_stack.push(current);
                assert(state@ == old(self)@.undo_stack.last());
                assert(documents(self.undo_stack@) =~= old(self)@.undo_stack.drop_last());
                assert(documents(self.redo_stack@) =~= old(self)@.redo_stack.push(
                    old(self)@.document,
                ));
                self.lines = state.lines;
                self.cursor_row = state.cursor_row;
                self.cursor_col = state.cursor_col;
                self.modified = true;
                self.check_duplicates();
                self.status_message = "undo".to_owned();
            },
            None => {
                self.status_message = "nothing to undo".to_owned();
                assert(documents(self.undo_stack@) =~= old(self)@.undo_stack);
            },
        }
    }

    /// Does again what was last taken back.
    pub fn redo(&mut self)
        ensures
            final(self)@ == old(self)@.redo(),
    {
        match self.redo_stack.pop() {
            Some(state) => {
                let current = self.current_state();
                self.undo_stack.push(current);
                assert(state@ == old(self)@.redo_stack.last());
                assert(documents(self.redo_stack@) =~= old(self)@.redo_stack.drop_last());
                assert(documents(self.undo_stack@) =~= old(self)@.undo_stack.push(
                    old(self)@.document,
                ));
                self.lines = state.lines;
                self.cursor_row = state.cursor_row;
                self.cursor_col = state.cursor_col;
                self.modified = true;
                self.check_duplicates();
                self.status_message = "redo".to_owned();
            },
            None => {
                self.status_message = "nothing to redo".to_owned();
                assert(documents(self.redo_stack@) =~= old(self)@.redo_stack);
            },
        }
    }

    /// Types `c` at the cursor.
    pub fn insert_char(&mut self, c: char)
        requires
            old(self)@.document.can_insert(),
        ensures
            final(self)@ == old(self)@.insert_char(c),
    {
        if self.cursor_row >= self.lines.len() {
            return;
        }
        self.save_state();
        let ghost saved = self@;
        let row: usize = self.cursor_row;
        let col: usize = self.cursor_col;
        assert(texts(self.lines@)[row as int] == self.lines@[row as int]@);
        if col <= len_in_bytes(self.lines[row].as_str()) {
            let (left, right) = split(self.lines[row].as_str(), col);
            let mut line = left.to_owned();
            line.push(c);
            line.append(right);
            proof {
                let text = saved.document.line();
                lemma_split(text, col as int);
                lemma_concat_splits(left@.push(c), right@);
                lemma_concat_splits(left@, seq![c]);
                lemma_byte_len_positive(seq![c]);
                assert(left@.push(c) =~= left@ + seq![c]);
            }
            // The longer line fits into memory, so the next column is a number.
            let longer: usize = len_in_bytes(line.as_str());
            assert(col < longer);
            let ghost before_lines = self.lines@;
            self.lines[row] = line;
            assert(texts(self.lines@) =~= texts(before_lines).update(row as int, line@));
            self.cursor_col += 1;
            self.modified = true;
            self.check_duplicates();
            assert(self@ =~= saved.changed(saved.document.insert_char(c)));
        }
    }

    /// Takes out the character in front of the cursor, or puts the line at the end of the
    /// one above.
    pub fn delete_char(&mut self)
        requires
            old(self)@.document.can_delete(),
        ensures
            final(self)@ == old(self)@.delete_char(),
    {
        if self.cursor_row >= self.lines.len() {
            return;
        }
        self.save_state();
        let ghost saved = self@;
        let row: usize = self.cursor_row;
        let col: usize = self.cursor_col;
        let ghost before_lines = self.lines@;
        assert(texts(self.lines@)[row as int] == self.lines@[row as int]@);
        if col > 0 && col <= len_in_bytes(self.lines[row].as_str()) {
            let (left, right) = split(self.lines[row].as_str(), col - 1);
            proof {
                let text = saved.document.line();
                lemma_split(text, col - 1);
                lemma_byte_len_positive(right@);
            }
            let rest = chars_of(right);
            let tail = string_of(&rest, 1, rest.len());
            assert(tail@ =~= right@.drop_first());
            let mut line = left.to_owned();
            line.append(tail.as_str());
            self.lines[row] = line;
            assert(texts(self.lines@) =~= texts(before_lines).update(row as int, line@));
            self.cursor_col -= 1;
            self.modified = true;
            self.check_duplicates();
            assert(self@ =~= saved.changed(saved.document.delete_char()));
        } else if col == 0 && row > 0 {
            let current_line = self.lines.remove(row);
            assert(texts(self.lines@) =~= texts(before_lines).remove(row as int));
            let ghost fewer_lines = self.lines@;
            assert(texts(before_lines)[row - 1] == fewer_lines[row - 1]@);
            self.cursor_row -= 1;
            let above: usize = row - 1;
            self.cursor_col = len_in_bytes(self.lines[above].as_str());
            let mut line = self.lines[above].clone();
            line.append(current_line.as_str());
            self.lines[above] = line;
            assert(texts(self.lines@) =~= texts(fewer_lines).update(row - 1, line@));
            self.modified = true;
            self.check_duplicates();
            assert(self@ =~= saved.changed(saved.document.delete_char()));
        }
    }

    /// Takes the line apart at the cursor.
    pub fn insert_newline(&mut self)
        requires
            old(self)@.document.can_split(),
        ensures
            final(self)@ == old(self)@.insert_newline(),
    {
        if self.cursor_row >= self.lines.len() {
            return;
        }
        self.save_state();
        let ghost saved = self@;
        let row: usize = self.cursor_row;
        let ghost before_lines = self.lines@;
        assert(texts(self.lines@)[row as int] == self.lines@[row as int]@);
        let (left, right) = split(self.lines[row].as_str(), self.cursor_col);
        let line = left.to_owned();
        let new_line = right.to_owned();
        self.lines[row] = line;
        assert(texts(self.lines@) =~= texts(before_lines).update(row as int, line@));
        let ghost shorter_lines = self.lines@;
        self.lines.insert(row + 1, new_line);
        assert(texts(self.lines@) =~= texts(shorter_lines).insert(row + 1, new_line@));
        self.cursor_row += 1;
        self.cursor_col = 0;
        self.modified = true;
        self.check_duplicates();
        assert(self@ =~= saved.changed(saved.document.insert_newline()));
    }

    /// The number of bytes on row `row`, none where there is no such row.
    fn line_len(&self, row: usize) -> (n: usize)
        ensures
            n == self@.document.line_len(row as int),
    {
        if row < self.lines.len() {
            assert(texts(self.lines@)[row as int] == self.lines@[row as int]@);
            len_in_bytes(self.lines[row].as_str())
        } else {
            0
        }
    }

    /// Moves the cursor one step in the direction of an arrow key.
    pub fn move_cursor(&mut self, direction: KeyCode)
        requires
            direction is Down || direction is Right ==> old(self)@.document.lines.len() > 0,
        ensures
            final(self)@ == old(self)@.move_cursor(direction),
    {
        match direction {
            KeyCode::Up => {
                if self.cursor_row > 0 {
                    self.cursor_row -= 1;
                    let line_len: usize = self.line_len(self.cursor_row);
                    if self.cursor_col > line_len {
                        self.cursor_col = line_len;
                    }
                }
            },
            KeyCode::Down => {
                if self.cursor_row < self.lines.len() - 1 {
                    self.cursor_row += 1;
                    let line_len: usize = self.line_len(self.cursor_row);
                    if self.cursor_col > line_len {
                        self.cursor_col = line_len;
                    }
                }
            },
            KeyCode::Left => {
                if self.cursor_col > 0 {
                    self.cursor_col -= 1;
                } else if self.cursor_row > 0 {
                    self.cursor_row -= 1;
                    self.cursor_col = self.line_len(self.cursor_row);
                }
            },
            KeyCode::Right => {
                let line_len: usize = self.line_len(self.cursor_row);
                if self.cursor_col < line_len {
                    self.cursor_col += 1;
                } else if self.cursor_row < self.lines.len() - 1 {
                    self.cursor_row += 1;
                    self.cursor_col = 0;
                }
            },
            _ => {},
        }
    }

    /// Takes out every row that repeats the address of a row above.
    pub fn remove_duplicates(&mut self)
        ensures
            final(self)@ == old(self)@.remove_duplicates(),
    {
        let to_remove = find_repeats(&self.lines);
        proof {
            to_remove@.unique_seq_to_set();
        }
        self.cursor_row = remove_rows(&mut self.lines, self.cursor_row, &to_remove);
        self.modified = true;
        self.check_duplicates();
        let mut message = "removed ".to_owned();
        push_decimal(&mut message, to_remove.len());
        message.append(" duplicate(s)");
        self.status_message = message;
    }

    /// Takes out every row that was found missing.
    pub fn remove_missing_emotes(&mut self)
        ensures
            final(self)@ == old(self)@.remove_missing_emotes(),
    {
        let count: usize = self.missing_emotes.len();
        if count > 0 {
            let to_remove = self.missing_rows();
            proof {
                lemma_same_rows(texts(self.lines@), to_remove@.to_set(), self.missing_emotes@, 0);
            }
            self.cursor_row = remove_rows(&mut self.lines, self.cursor_row, &to_remove);
            self.modified = true;
            self.missing_emotes.clear();
            self.check_duplicates();
            let mut message = "removed ".to_owned();
            push_decimal(&mut message, count);
            message.append(" 404 emote(s)");
            self.status_message = message;
        }
    }

    /// The rows that were found missing, as far as there still are such rows, from the top down.
    fn missing_rows(&self) -> (rows: Vec<usize>)
        ensures
            ascending(rows@, self.lines.len() as int),
            forall|k: usize| #[trigger]
                rows@.contains(k) <==> k < self.lines.len() && self.missing_emotes@.contains(k),
    {
        let mut rows: Vec<usize> = Vec::new();
        let mut i: usize = 0;
        while i < self.lines.len()
            invariant
                i <= self.lines.len(),
                ascending(rows@, i as int),
                forall|k: usize| #[trigger]
                    rows@.contains(k) <==> k < i && self.missing_emotes@.contains(k),
            decreases self.lines.len() - i,
        {
            if self.missing_emotes.contains(&i) {
                let ghost old_rows = rows@;
                rows.push(i);
                assert forall|k: usize| #[trigger]
                    rows@.contains(k) <==> k < i + 1 && self.missing_emotes@.contains(k) by {
                    if rows@.contains(k) && k != i {
                        let p = choose|p: int| 0 <= p < rows@.len() && rows@[p] == k;
                        assert(old_rows[p] == k);
                    }
                    if old_rows.contains(k) {
                        let p = choose|p: int| 0 <= p < old_rows.len() && old_rows[p] == k;
                        assert(rows@[p] == k);
                    }
                    if k == i {
                        assert(rows@[rows@.len() - 1] == k);
                    }
                }
            }
            i += 1;
        }
        rows
    }
}

} // verus!
