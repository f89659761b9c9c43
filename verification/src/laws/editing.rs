//! What holds of editing, of undo and redo, and of the cursor.

use vstd::prelude::*;
use vstd::utf8::is_ascii_chars;

use crate::check::{CheckEvent, CheckView};
use crate::keys::Key;
use crate::laws::removal::lemma_kept_len;
use crate::model::{Document, EditorView, KeyCode};
use crate::rows::{duplicate_rows, lemma_below_bounds};
use crate::storage::LoadEvent;
use crate::text::{
    after, before, byte_len, lemma_byte_len_positive, lemma_concat_splits, lemma_split, on_boundary,
};

verus! {

impl Key {
    /// Whether the key changes the text: it types a character, breaks a line, or deletes.
    pub open spec fn edits(self) -> bool {
        self.pressed && (self.typed() is Some || self.code is Enter || self.code is Backspace)
    }
}

impl EditorView {
    /// What every operation keeps: the cursor stands in the text, now and in every state that
    /// can come back; the marked duplicates are those of the text; and the states that can come
    /// back are not too many.
    pub open spec fn consistent(self) -> bool {
        &&& self.document.in_range()
        &&& forall|i: int|
            0 <= i < self.undo_stack.len() ==> (#[trigger] self.undo_stack[i]).in_range()
        &&& forall|i: int|
            0 <= i < self.redo_stack.len() ==> (#[trigger] self.redo_stack[i]).in_range()
        &&& self.duplicates == duplicate_rows(self.document.lines)
        &&& self.undo_stack.len() + self.redo_stack.len() <= self.max_undo_size
    }
}

/// An editor starts out consistent.
pub proof fn law_start_is_consistent(width: int, height: int)
    ensures
        EditorView::start(width, height).consistent(),
{
    let editor = EditorView::start(width, height);
    let lines = editor.document.lines;
    assert(duplicate_rows(lines) =~= Set::<usize>::empty());
}

proof fn lemma_removal_in_range(document: Document, rows: Set<usize>)
    requires
        document.in_range(),
        document.lines.len() <= usize::MAX,
    ensures
        document.remove_rows(rows).in_range(),
{
    let n = document.lines.len() as int;
    let c = document.cursor_row;
    lemma_kept_len(document.lines, rows, 0);
    if c < n {
        lemma_below_bounds(rows, c + 1, n);
        lemma_below_bounds(rows, 0, c + 1);
    }
}

/// Every key keeps the editor consistent.
pub proof fn law_keys_keep_consistent(editor: EditorView, key: Key)
    requires
        editor.consistent(),
        editor.takes(key),
        editor.document.lines.len() <= usize::MAX,
    ensures
        editor.press(key).0.consistent(),
{
    lemma_removal_in_range(editor.document, crate::rows::repeat_rows(editor.document.lines));
    lemma_removal_in_range(editor.document, editor.missing_emotes);
    let next = editor.press(key).0;
    assert(next.document.in_range());
    assert(next.duplicates == duplicate_rows(next.document.lines));
    assert(next.undo_stack.len() + next.redo_stack.len() <= next.max_undo_size);
}

/// Loading a text, or failing to, keeps the editor consistent.
pub proof fn law_loading_keeps_consistent(
    editor: EditorView,
    path: Seq<char>,
    read: Result<Seq<char>, Seq<char>>,
    objection: Option<Seq<char>>,
)
    requires
        editor.consistent(),
    ensures
        editor.load_from_file(path, read, objection).0.consistent(),
        read matches Ok(content) ==> editor.load(content, objection).0.consistent(),
{
}

/// Everything else that the editor does keeps it consistent too.
pub proof fn law_the_rest_keeps_consistent(
    editor: EditorView,
    url: Seq<char>,
    load: LoadEvent,
    said: Option<Seq<char>>,
    check: CheckView,
    event: CheckEvent,
    written: Result<(), Seq<char>>,
)
    requires
        editor.consistent(),
    ensures
        editor.load_from_url(url, load, said).0.consistent(),
        editor.check_step(check, event).0.consistent(),
        editor.save_written(written).0.consistent(),
        editor.adjust_scroll().consistent(),
{
}

/// A key that changes the lines of the text marks the text as modified.
pub proof fn law_changes_are_marked(editor: EditorView, key: Key)
    requires
        editor.takes(key),
    ensures
        editor.press(key).0.document.lines != editor.document.lines ==> editor.press(
            key,
        ).0.modified,
{
}

// ---------------------------------------------------------------------------------------
// Undo and redo
// ---------------------------------------------------------------------------------------

/// Undo right after a change brings back the text and the cursor from before it, and after a
/// change there is nothing to redo.
pub proof fn law_undo_takes_back(editor: EditorView, key: Key)
    requires
        editor.takes(key),
        key.edits(),
        editor.document.on_line(),
        editor.max_undo_size > 0,
    ensures
        editor.press(key).0.undo().document == editor.document,
        editor.press(key).0.redo_stack.len() == 0,
        editor.undo_stack.len() < editor.max_undo_size ==> editor.press(key).0.undo().undo_stack
            == editor.undo_stack,
{
    let pushed = editor.undo_stack.push(editor.document);
    assert(pushed.drop_last() =~= editor.undo_stack);
    assert(editor.press(key).0.undo_stack == editor.save_state().undo_stack);
}

/// Redo right after undo brings back what undo took away.
pub proof fn law_redo_after_undo(editor: EditorView)
    requires
        editor.undo_stack.len() > 0,
    ensures
        editor.undo().redo().document == editor.document,
        editor.undo().redo().undo_stack == editor.undo_stack,
        editor.undo().redo().redo_stack == editor.redo_stack,
{
    let undone = editor.undo();
    assert(undone.redo_stack.drop_last() =~= editor.redo_stack);
    assert(undone.undo_stack.push(editor.undo_stack.last()) =~= editor.undo_stack);
}

/// Undo right after redo brings back what redo took away.
pub proof fn law_undo_after_redo(editor: EditorView)
    requires
        editor.redo_stack.len() > 0,
    ensures
        editor.redo().undo().document == editor.document,
        editor.redo().undo().undo_stack == editor.undo_stack,
        editor.redo().undo().redo_stack == editor.redo_stack,
{
    let redone = editor.redo();
    assert(redone.undo_stack.drop_last() =~= editor.undo_stack);
    assert(redone.redo_stack.push(editor.redo_stack.last()) =~= editor.redo_stack);
}

// ---------------------------------------------------------------------------------------
// Changes that take each other back
// ---------------------------------------------------------------------------------------

/// Backspace right after typing a character leaves the text and the cursor as they were.
pub proof fn law_backspace_after_typing(editor: EditorView, c: char)
    requires
        editor.document.on_line(),
        0 <= editor.document.cursor_col <= byte_len(editor.document.line()),
        editor.document.can_insert(),
    ensures
        editor.insert_char(c).document.can_delete(),
        editor.insert_char(c).delete_char().document == editor.document,
{
    let d = editor.document;
    let typed = d.insert_char(c);
    let left = before(d.line(), d.cursor_col);
    let right = after(d.line(), d.cursor_col);
    lemma_split(d.line(), d.cursor_col);
    let rest = seq![c] + right;
    assert(left.push(c) + right =~= left + rest);
    lemma_concat_splits(left, rest);
    lemma_concat_splits(seq![c], right);
    lemma_byte_len_positive(seq![c]);
    assert(typed.line() == left + rest);
    assert(rest.drop_first() =~= right);
    assert(typed.delete_char().lines =~= d.lines);
}

/// Backspace right after Enter leaves the text and the cursor as they were.
pub proof fn law_backspace_after_enter(editor: EditorView)
    requires
        editor.document.on_line(),
        editor.document.can_split(),
    ensures
        editor.insert_newline().document.can_delete(),
        editor.insert_newline().delete_char().document == editor.document,
{
    let d = editor.document;
    lemma_split(d.line(), d.cursor_col);
    let broken = d.insert_newline();
    assert(broken.lines[d.cursor_row] == before(d.line(), d.cursor_col));
    assert(broken.line() == after(d.line(), d.cursor_col));
    assert(broken.delete_char().lines =~= d.lines);
}

// ---------------------------------------------------------------------------------------
// The cursor
// ---------------------------------------------------------------------------------------

impl Document {
    /// Whether the cursor stands within its line.
    pub open spec fn in_line(self) -> bool {
        self.on_line() && 0 <= self.cursor_col <= byte_len(self.line())
    }
}

/// The arrow keys keep the cursor within its line, and the lines as they are.
pub proof fn law_arrows_stay_in_line(document: Document, direction: KeyCode)
    requires
        document.in_line(),
    ensures
        document.move_cursor(direction).in_line(),
        document.move_cursor(direction).lines == document.lines,
{
}

/// Left right after right goes back, and right after left, where the first step went anywhere.
pub proof fn law_arrows_go_back(document: Document)
    requires
        document.in_line(),
    ensures
        document.move_cursor(KeyCode::Right) != document ==> document.move_cursor(
            KeyCode::Right,
        ).move_cursor(KeyCode::Left) == document,
        document.move_cursor(KeyCode::Left) != document ==> document.move_cursor(
            KeyCode::Left,
        ).move_cursor(KeyCode::Right) == document,
{
}

// ---------------------------------------------------------------------------------------
// Text of one byte per character
// ---------------------------------------------------------------------------------------

/// Whether every character of every line takes one byte.
pub open spec fn is_plain(lines: Seq<Seq<char>>) -> bool {
    forall|i: int| 0 <= i < lines.len() ==> is_ascii_chars(#[trigger] lines[i])
}

/// In a plain line every place is a boundary, and bytes count characters.
pub proof fn lemma_plain_line(line: Seq<char>, at: int)
    requires
        is_ascii_chars(line),
        0 <= at <= line.len(),
    ensures
        byte_len(line) == line.len(),
        on_boundary(line, at),
        before(line, at) == line.take(at),
        after(line, at) == line.skip(at),
{
    let left = line.take(at);
    let right = line.skip(at);
    vstd::utf8::is_ascii_chars_encode_utf8(line);
    vstd::utf8::is_ascii_chars_encode_utf8(left);
    lemma_concat_splits(left, right);
    assert(left + right =~= line);
}

/// In plain text, a cursor within its line is where every key can do its work.
pub proof fn law_plain_text_takes_every_key(editor: EditorView, key: Key)
    requires
        editor.document.in_line(),
        is_plain(editor.document.lines),
    ensures
        editor.takes(key),
{
    let d = editor.document;
    vstd::utf8::is_ascii_chars_encode_utf8(d.line());
    lemma_plain_line(d.line(), d.cursor_col);
    if d.cursor_col > 0 {
        lemma_plain_line(d.line(), d.cursor_col - 1);
    }
}

/// Typing plain characters, breaking lines, deleting and moving about keeps plain text plain and
/// the cursor within its line.
pub proof fn law_plain_text_stays_plain(editor: EditorView, key: Key)
    requires
        editor.document.in_line(),
        is_plain(editor.document.lines),
        key.edits() || key.code is Up || key.code is Down || key.code is Left || key.code is Right,
        key.typed() matches Some(c) ==> c <= '\u{7f}',
    ensures
        editor.press(key).0.document.in_line(),
        is_plain(editor.press(key).0.document.lines),
{
    let d = editor.document;
    let line = d.line();
    let next = editor.press(key).0.document;
    vstd::utf8::is_ascii_chars_encode_utf8(line);
    lemma_plain_line(line, d.cursor_col);
    if key.edits() {
        if let KeyCode::Char(c) = key.code {
            let typed = line.take(d.cursor_col).push(c) + line.skip(d.cursor_col);
            assert(next.lines == d.lines.update(d.cursor_row, typed));
            assert(is_ascii_chars(typed));
            vstd::utf8::is_ascii_chars_encode_utf8(typed);
        } else if key.code is Enter {
            assert(is_ascii_chars(line.take(d.cursor_col)));
            assert(is_ascii_chars(line.skip(d.cursor_col)));
            assert(next.lines == d.lines.update(d.cursor_row, line.take(d.cursor_col)).insert(
                d.cursor_row + 1,
                line.skip(d.cursor_col),
            ));
            assert forall|i: int| 0 <= i < next.lines.len() implies is_ascii_chars(
                #[trigger] next.lines[i],
            ) by {
                if i > d.cursor_row + 1 {
                    assert(next.lines[i] == d.lines[i - 1]);
                }
            }
        } else if d.cursor_col > 0 {
            lemma_plain_line(line, d.cursor_col - 1);
            let shorter = line.take(d.cursor_col - 1) + line.skip(d.cursor_col - 1).drop_first();
            assert(next.lines == d.lines.update(d.cursor_row, shorter));
            assert(is_ascii_chars(shorter));
            vstd::utf8::is_ascii_chars_encode_utf8(shorter);
        } else if d.cursor_row > 0 {
            let above = d.lines[d.cursor_row - 1];
            let longer = above + line;
            assert(is_ascii_chars(above));
            assert(is_ascii_chars(longer));
            assert(next.lines == d.lines.remove(d.cursor_row).update(d.cursor_row - 1, longer));
            vstd::utf8::is_ascii_chars_encode_utf8(above);
            vstd::utf8::is_ascii_chars_encode_utf8(longer);
            assert forall|i: int| 0 <= i < next.lines.len() implies is_ascii_chars(
                #[trigger] next.lines[i],
            ) by {
                if i >= d.cursor_row {
                    assert(next.lines[i] == d.lines[i + 1]);
                }
            }
        }
    } else {
        law_arrows_stay_in_line(d, key.code);
    }
}

} // verus!
