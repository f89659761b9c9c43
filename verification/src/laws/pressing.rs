//! What each key does.

use vstd::prelude::*;

use crate::keys::{Action, Key};
use crate::laws::addresses::{law_others_are_not_marked, law_same_address_is_marked};
use crate::laws::removal::{law_no_duplicates_left, law_removal_leaves_the_others};
use crate::model::{Document, EditorView, KeyCode};
use crate::rows::{duplicate_rows, moved_up, repeat_rows, without_rows};
use crate::text::{byte_len, decimal, lemma_byte_len_positive, lemma_concat_splits, on_boundary};
use crate::url::url_of;

verus! {

/// A key that goes up does nothing.
pub proof fn law_released_keys_do_nothing(editor: EditorView, key: Key)
    requires
        !key.pressed,
    ensures
        editor.takes(key),
        editor.press(key) == (editor, Action::Nothing),
{
}

/// A key is taken unless it would work inside a character, break a line beyond its end, or move
/// about in a text without lines.
pub proof fn law_which_keys_are_taken(editor: EditorView, key: Key)
    requires
        key.pressed,
    ensures
        ({
            let d = editor.document;
            let row = d.cursor_row;
            let col = d.cursor_col;
            let on_line = 0 <= row < d.lines.len();
            match key.code {
                KeyCode::Char(_) => editor.takes(key) <==> (key.control || key.alt || !on_line
                    || col > byte_len(d.lines[row]) || on_boundary(d.lines[row], col)),
                KeyCode::Enter => editor.takes(key) <==> (!on_line || on_boundary(
                    d.lines[row],
                    col,
                )),
                KeyCode::Backspace => editor.takes(key) <==> (!on_line || col <= 0 || col
                    > byte_len(d.lines[row]) || on_boundary(d.lines[row], col - 1)),
                KeyCode::Down | KeyCode::Right => editor.takes(key) <==> d.lines.len() > 0,
                _ => editor.takes(key),
            }
        }),
{
}

// ---------------------------------------------------------------------------------------
// Typing, Enter and Backspace
// ---------------------------------------------------------------------------------------

/// The state before a change is the last that can come back, and the oldest one goes where there
/// are too many. Nothing can be redone. The marks are those of the new lines. Apart from this and
/// the text itself, a change touches nothing.
proof fn lemma_edit_frame(editor: EditorView, key: Key)
    requires
        key.pressed,
        (key.code is Char && !key.control && !key.alt) || key.code is Enter || key.code
            is Backspace,
        editor.document.on_line(),
    ensures
        ({
            let next = editor.press(key).0;
            let history = editor.undo_stack.push(editor.document);
            &&& editor.press(key).1 == Action::Nothing
            &&& next.redo_stack == Seq::<Document>::empty()
            &&& editor.undo_stack.len() < editor.max_undo_size ==> next.undo_stack == history
            &&& editor.undo_stack.len() >= editor.max_undo_size ==> seq![history[0]]
                + next.undo_stack == history
            &&& next == (EditorView {
                document: next.document,
                duplicates: next.duplicates,
                modified: next.modified,
                undo_stack: next.undo_stack,
                redo_stack: next.redo_stack,
                ..editor
            })
        }),
{
    let history = editor.undo_stack.push(editor.document);
    assert(seq![history[0]] + history.drop_first() =~= history);
}

/// What is remembered of a change: the state before it can come back last, the oldest one is
/// forgotten where there are too many, and nothing can be redone.
pub proof fn law_changes_are_remembered(editor: EditorView, key: Key)
    requires
        key.pressed,
        (key.code is Char && !key.control && !key.alt) || key.code is Enter || key.code
            is Backspace,
        0 <= editor.document.cursor_row < editor.document.lines.len(),
    ensures
        editor.press(key).0.redo_stack == Seq::<Document>::empty(),
        editor.undo_stack.len() < editor.max_undo_size ==> editor.press(key).0.undo_stack
            == editor.undo_stack.push(editor.document),
        editor.undo_stack.len() >= editor.max_undo_size ==> editor.press(key).0.undo_stack.len()
            == editor.undo_stack.len(),
        editor.undo_stack.len() >= editor.max_undo_size ==> forall|i: int|
            0 <= i < editor.undo_stack.len() ==> #[trigger] editor.press(key).0.undo_stack[i] == (
            if i + 1 < editor.undo_stack.len() {
                editor.undo_stack[i + 1]
            } else {
                editor.document
            }),
{
}

/// Where the cursor stands on no line, typing, Enter and Backspace do nothing at all.
pub proof fn law_no_line_no_change(editor: EditorView, key: Key)
    requires
        key.pressed,
        (key.code is Char && !key.control && !key.alt) || key.code is Enter || key.code
            is Backspace,
        !(0 <= editor.document.cursor_row < editor.document.lines.len()),
    ensures
        editor.press(key) == (editor, Action::Nothing),
{
}

/// The character that is typed goes in between what stands left and right of the cursor, and
/// every other line stays as it was. The cursor moves on by one, and nothing but the text, its
/// marks and what can be undone changes.
pub proof fn law_typing(
    editor: EditorView,
    key: Key,
    c: char,
    left: Seq<char>,
    right: Seq<char>,
)
    requires
        key.pressed,
        key.code == KeyCode::Char(c),
        !key.control,
        !key.alt,
        0 <= editor.document.cursor_row < editor.document.lines.len(),
        editor.document.lines[editor.document.cursor_row] == left + right,
        editor.document.cursor_col == byte_len(left),
    ensures
        editor.takes(key),
        ({
            let next = editor.press(key).0;
            let lines = editor.document.lines.update(
                editor.document.cursor_row,
                left + seq![c] + right,
            );
            &&& editor.press(key).1 == Action::Nothing
            &&& next == (EditorView {
                document: Document {
                    lines,
                    cursor_row: editor.document.cursor_row,
                    cursor_col: editor.document.cursor_col + 1,
                },
                modified: true,
                duplicates: duplicate_rows(lines),
                undo_stack: next.undo_stack,
                redo_stack: next.redo_stack,
                ..editor
            })
        }),
{
    lemma_concat_splits(left, right);
    lemma_byte_len_nonnegative(left, right);
    lemma_edit_frame(editor, key);
    assert(left.push(c) =~= left + seq![c]);
}

proof fn lemma_byte_len_nonnegative(left: Seq<char>, right: Seq<char>)
    ensures
        0 <= byte_len(left) <= byte_len(left + right),
{
    lemma_concat_splits(left, right);
}

/// In plain text, what stands at the cursor's column after typing is what was typed.
pub proof fn law_typed_character_is_there(editor: EditorView, key: Key, c: char)
    requires
        key.pressed,
        key.code == KeyCode::Char(c),
        !key.control,
        !key.alt,
        0 <= editor.document.cursor_row < editor.document.lines.len(),
        vstd::utf8::is_ascii_chars(editor.document.lines[editor.document.cursor_row]),
        0 <= editor.document.cursor_col <= editor.document.lines[editor.document.cursor_row].len(),
    ensures
        ({
            let old_line = editor.document.lines[editor.document.cursor_row];
            let new_line = editor.press(key).0.document.lines[editor.document.cursor_row];
            let col = editor.document.cursor_col;
            &&& new_line.len() == old_line.len() + 1
            &&& new_line[col] == c
            &&& new_line.take(col) == old_line.take(col)
            &&& new_line.skip(col + 1) == old_line.skip(col)
        }),
{
    let line = editor.document.lines[editor.document.cursor_row];
    let col = editor.document.cursor_col;
    let left = line.take(col);
    let right = line.skip(col);
    vstd::utf8::is_ascii_chars_encode_utf8(left);
    assert(left + right =~= line);
    law_typing(editor, key, c, left, right);
    let typed = left + seq![c] + right;
    assert(typed.take(col) =~= left);
    assert(typed.skip(col + 1) =~= right);
}

/// Enter makes two lines of what stands left and right of the cursor, which goes to the start of
/// the second. Every other line stays as it was.
pub proof fn law_enter(editor: EditorView, key: Key, left: Seq<char>, right: Seq<char>)
    requires
        key.pressed,
        key.code is Enter,
        0 <= editor.document.cursor_row < editor.document.lines.len(),
        editor.document.lines[editor.document.cursor_row] == left + right,
        editor.document.cursor_col == byte_len(left),
    ensures
        editor.takes(key),
        ({
            let next = editor.press(key).0;
            let row = editor.document.cursor_row;
            let lines = editor.document.lines.take(row) + seq![left, right]
                + editor.document.lines.skip(row + 1);
            &&& editor.press(key).1 == Action::Nothing
            &&& next == (EditorView {
                document: Document { lines, cursor_row: row + 1, cursor_col: 0 },
                modified: true,
                duplicates: duplicate_rows(lines),
                undo_stack: next.undo_stack,
                redo_stack: next.redo_stack,
                ..editor
            })
        }),
{
    let row = editor.document.cursor_row;
    lemma_concat_splits(left, right);
    lemma_edit_frame(editor, key);
    assert(editor.document.lines.update(row, left).insert(row + 1, right) =~= editor.document.lines
        .take(row) + seq![left, right] + editor.document.lines.skip(row + 1));
}

/// Backspace takes out the character that starts one byte in front of the cursor, and no other.
pub proof fn law_backspace(
    editor: EditorView,
    key: Key,
    left: Seq<char>,
    c: char,
    right: Seq<char>,
)
    requires
        key.pressed,
        key.code is Backspace,
        0 <= editor.document.cursor_row < editor.document.lines.len(),
        editor.document.lines[editor.document.cursor_row] == left + seq![c] + right,
        editor.document.cursor_col == byte_len(left) + 1,
    ensures
        editor.takes(key),
        ({
            let next = editor.press(key).0;
            let lines = editor.document.lines.update(editor.document.cursor_row, left + right);
            &&& editor.press(key).1 == Action::Nothing
            &&& next == (EditorView {
                document: Document {
                    lines,
                    cursor_row: editor.document.cursor_row,
                    cursor_col: editor.document.cursor_col - 1,
                },
                modified: true,
                duplicates: duplicate_rows(lines),
                undo_stack: next.undo_stack,
                redo_stack: next.redo_stack,
                ..editor
            })
        }),
{
    let rest = seq![c] + right;
    assert(left + seq![c] + right =~= left + rest);
    lemma_concat_splits(left, rest);
    lemma_concat_splits(seq![c], right);
    lemma_byte_len_positive(seq![c]);
    lemma_byte_len_nonnegative(left, rest);
    lemma_edit_frame(editor, key);
    assert(rest.drop_first() =~= right);
}

/// Backspace at the start of a line puts the line at the end of the one above, with the cursor
/// between the two.
pub proof fn law_backspace_joins_lines(
    editor: EditorView,
    key: Key,
    above: Seq<Seq<char>>,
    left: Seq<char>,
    right: Seq<char>,
    below: Seq<Seq<char>>,
)
    requires
        key.pressed,
        key.code is Backspace,
        editor.document.lines == above + seq![left, right] + below,
        editor.document.cursor_row == above.len() + 1,
        editor.document.cursor_col == 0,
    ensures
        editor.takes(key),
        ({
            let next = editor.press(key).0;
            let lines = above + seq![left + right] + below;
            &&& editor.press(key).1 == Action::Nothing
            &&& next == (EditorView {
                document: Document {
                    lines,
                    cursor_row: above.len() as int,
                    cursor_col: byte_len(left),
                },
                modified: true,
                duplicates: duplicate_rows(lines),
                undo_stack: next.undo_stack,
                redo_stack: next.redo_stack,
                ..editor
            })
        }),
{
    let d = editor.document;
    lemma_edit_frame(editor, key);
    assert(d.lines[d.cursor_row - 1] == left);
    assert(d.lines[d.cursor_row] == right);
    assert(d.lines.remove(d.cursor_row).update(d.cursor_row - 1, left + right) =~= above + seq![
        left + right,
    ] + below);
}

/// Typing and Backspace beyond the end of a line, and Backspace at the very start of the text,
/// leave the text, its marks and whether it is modified as they were.
pub proof fn law_nothing_to_change(editor: EditorView, key: Key)
    requires
        key.pressed,
        0 <= editor.document.cursor_row < editor.document.lines.len(),
        editor.document.cursor_col >= 0,
        ({
            let beyond = editor.document.cursor_col > byte_len(
                editor.document.lines[editor.document.cursor_row],
            );
            ||| key.code is Char && !key.control && !key.alt && beyond
            ||| key.code is Backspace && beyond
            ||| key.code is Backspace && editor.document.cursor_row == 0
                && editor.document.cursor_col == 0
        }),
    ensures
        editor.takes(key),
        editor.press(key).1 == Action::Nothing,
        editor.press(key).0 == (EditorView {
            undo_stack: editor.press(key).0.undo_stack,
            redo_stack: editor.press(key).0.redo_stack,
            ..editor
        }),
{
    lemma_edit_frame(editor, key);
}

// ---------------------------------------------------------------------------------------
// Arrows
// ---------------------------------------------------------------------------------------

/// Up goes one row up and down one row down, where there is one, and no further right than the
/// end of the line there. The screen is wanted anew exactly where the cursor moved.
pub proof fn law_up_and_down(editor: EditorView, key: Key)
    requires
        key.pressed,
        key.code is Up || key.code is Down,
        0 <= editor.document.cursor_row < editor.document.lines.len(),
    ensures
        ({
            let d = editor.document;
            let row = if key.code is Up {
                d.cursor_row - 1
            } else {
                d.cursor_row + 1
            };
            let (next, action) = editor.press(key);
            let n = next.document;
            &&& 0 <= row < d.lines.len() ==> n.cursor_row == row && n.cursor_col <= byte_len(
                d.lines[row],
            ) && n.cursor_col <= d.cursor_col && (n.cursor_col == d.cursor_col || n.cursor_col
                == byte_len(d.lines[row])) && action == Action::Refresh
            &&& !(0 <= row < d.lines.len()) ==> n == d && action == Action::Nothing
            &&& n.lines == d.lines
            &&& next == (EditorView { document: n, ..editor })
        }),
{
}

/// Right goes one byte on, or to the start of the next line from the end of one, and stays at the
/// end of the last line.
pub proof fn law_right(editor: EditorView, key: Key)
    requires
        key.pressed,
        key.code is Right,
        0 <= editor.document.cursor_row < editor.document.lines.len(),
    ensures
        ({
            let d = editor.document;
            let end = byte_len(d.lines[d.cursor_row]);
            let (next, action) = editor.press(key);
            let n = next.document;
            let at = (n.cursor_row, n.cursor_col);
            &&& d.cursor_col < end ==> at == (d.cursor_row, d.cursor_col + 1) && action
                == Action::Refresh
            &&& d.cursor_col >= end && d.cursor_row + 1 < d.lines.len() ==> at == (
                d.cursor_row + 1,
                0int,
            ) && action == Action::Refresh
            &&& d.cursor_col >= end && d.cursor_row + 1 == d.lines.len() ==> at == (
                d.cursor_row,
                d.cursor_col,
            ) && action == Action::Nothing
            &&& n.lines == d.lines
            &&& next == (EditorView { document: n, ..editor })
        }),
{
}

/// Left goes one byte back, or to the end of the line above from the start of one, and stays at
/// the start of the text.
pub proof fn law_left(editor: EditorView, key: Key)
    requires
        key.pressed,
        key.code is Left,
        0 <= editor.document.cursor_row < editor.document.lines.len(),
        editor.document.cursor_col >= 0,
    ensures
        ({
            let d = editor.document;
            let (next, action) = editor.press(key);
            let n = next.document;
            let at = (n.cursor_row, n.cursor_col);
            &&& d.cursor_col > 0 ==> at == (d.cursor_row, d.cursor_col - 1) && action
                == Action::Refresh
            &&& d.cursor_col == 0 && d.cursor_row > 0 ==> at == (
                d.cursor_row - 1,
                byte_len(d.lines[d.cursor_row - 1]),
            ) && action == Action::Refresh
            &&& d.cursor_col == 0 && d.cursor_row == 0 ==> at == (0int, 0int) && action
                == Action::Nothing
            &&& n.lines == d.lines
            &&& next == (EditorView { document: n, ..editor })
        }),
{
}

/// Where the cursor stands below the text, up and left go up to the text as from an empty line,
/// and down and right stay.
pub proof fn law_arrows_below_the_text(editor: EditorView, key: Key)
    requires
        key.pressed,
        key.code is Up || key.code is Down || key.code is Left || key.code is Right,
        editor.document.cursor_row >= editor.document.lines.len(),
        editor.document.cursor_col >= 0,
    ensures
        ({
            let d = editor.document;
            let end = if 0 < d.cursor_row == d.lines.len() {
                byte_len(d.lines[d.cursor_row - 1])
            } else {
                0
            };
            let (next, action) = editor.press(key);
            let n = next.document;
            let at = (n.cursor_row, n.cursor_col);
            &&& (key.code is Down || key.code is Right) ==> n == d
            &&& (key.code is Up || (key.code is Left && d.cursor_col == 0)) && d.cursor_row == 0
                ==> n == d
            &&& key.code is Up && d.cursor_row > 0 ==> at == (
                d.cursor_row - 1,
                if d.cursor_col > end {
                    end
                } else {
                    d.cursor_col
                },
            )
            &&& key.code is Left && d.cursor_col > 0 ==> at == (d.cursor_row, d.cursor_col - 1)
            &&& key.code is Left && d.cursor_col == 0 && d.cursor_row > 0 ==> at == (
                d.cursor_row - 1,
                end,
            )
            &&& n.lines == d.lines
            &&& next == (EditorView { document: n, ..editor })
            &&& action == (if n == d {
                Action::Nothing
            } else {
                Action::Refresh
            })
        }),
{
}

// ---------------------------------------------------------------------------------------
// Undo and redo
// ---------------------------------------------------------------------------------------

/// Ctrl-Z brings back the last state put away, and keeps the present one for Ctrl-Y. It leaves
/// everything else alone, and says so where there is nothing to bring back.
pub proof fn law_undo_key(editor: EditorView, key: Key, past: Seq<Document>, state: Document)
    requires
        key.pressed,
        key.code == KeyCode::Char('z'),
        key.control,
    ensures
        editor.takes(key),
        editor.press(key).1 == Action::Nothing,
        editor.undo_stack == past.push(state) ==> editor.press(key).0 == (EditorView {
            document: state,
            undo_stack: past,
            redo_stack: editor.redo_stack.push(editor.document),
            modified: true,
            duplicates: duplicate_rows(state.lines),
            status_message: "undo"@,
            ..editor
        }),
        editor.undo_stack.len() == 0 ==> editor.press(key).0 == (EditorView {
            status_message: "nothing to undo"@,
            ..editor
        }),
{
    assert(past.push(state).drop_last() =~= past);
    assert(past.push(state).last() == state);
}

/// Ctrl-Y brings back the state last undone, and keeps the present one for Ctrl-Z. It leaves
/// everything else alone, and says so where there is nothing to bring back.
pub proof fn law_redo_key(editor: EditorView, key: Key, future: Seq<Document>, state: Document)
    requires
        key.pressed,
        key.code == KeyCode::Char('y'),
        key.control,
    ensures
        editor.takes(key),
        editor.press(key).1 == Action::Nothing,
        editor.redo_stack == future.push(state) ==> editor.press(key).0 == (EditorView {
            document: state,
            redo_stack: future,
            undo_stack: editor.undo_stack.push(editor.document),
            modified: true,
            duplicates: duplicate_rows(state.lines),
            status_message: "redo"@,
            ..editor
        }),
        editor.redo_stack.len() == 0 ==> editor.press(key).0 == (EditorView {
            status_message: "nothing to redo"@,
            ..editor
        }),
{
    assert(future.push(state).drop_last() =~= future);
    assert(future.push(state).last() == state);
}

/// Any other character with Ctrl, any without Ctrl but with Alt, and any key that the editor does
/// not know, does nothing.
pub proof fn law_other_keys_do_nothing(editor: EditorView, key: Key)
    requires
        key.pressed,
        ({
            ||| key.code is Other
            ||| key.code is Char && !key.control && key.alt
            ||| key.code matches KeyCode::Char(c) && key.control && c != 'y' && c != 'z'
            ||| key.code matches KeyCode::F(n) && n != 1 && n != 2 && n != 3 && n != 4 && n != 5 && n
                != 6 && n != 10
        }),
    ensures
        editor.takes(key),
        editor.press(key) == (editor, Action::Nothing),
{
}

// ---------------------------------------------------------------------------------------
// Function keys and Esc
// ---------------------------------------------------------------------------------------

/// F1 and Esc say something and do nothing else.
pub proof fn law_keys_that_say_something(editor: EditorView, key: Key)
    requires
        key.pressed,
    ensures
        key.code == KeyCode::F(1) ==> editor.press(key) == (
            EditorView {
                status_message:
                    "F2: save | F10: quit | F3: remove dupes | F4: check 404 | F5: remove missing | F6: load"@,
                ..editor
            },
            Action::Nothing,
        ),
        key.code is Esc ==> editor.press(key) == (
            EditorView { status_message: "press F10 to quit"@, ..editor },
            Action::Nothing,
        ),
{
}

/// F2, F4, F6 and F10 change nothing and ask for something to be done: to save, to check unless a
/// check is under way, to load, and to quit.
pub proof fn law_keys_that_ask(editor: EditorView, key: Key)
    requires
        key.pressed,
    ensures
        key.code == KeyCode::F(2) ==> editor.press(key) == (editor, Action::Save),
        key.code == KeyCode::F(4) && !editor.checking_urls ==> editor.press(key) == (
            editor,
            Action::CheckMissing,
        ),
        key.code == KeyCode::F(4) && editor.checking_urls ==> editor.press(key) == (
            editor,
            Action::Nothing,
        ),
        key.code == KeyCode::F(6) ==> editor.press(key) == (editor, Action::PromptLoad),
        key.code == KeyCode::F(10) ==> editor.press(key) == (editor, Action::Quit),
{
}

/// F3 takes out the rows that repeat the address of a row above, whatever else the editor holds,
/// and says how many they were.
pub proof fn law_remove_duplicates_key(editor: EditorView, key: Key)
    requires
        key.pressed,
        key.code == KeyCode::F(3),
    ensures
        ({
            let d = editor.document;
            let repeats = repeat_rows(d.lines);
            let lines = without_rows(d.lines, repeats);
            editor.press(key) == (
                EditorView {
                    document: Document {
                        lines,
                        cursor_row: moved_up(d.cursor_row, repeats, d.lines.len() as int),
                        cursor_col: d.cursor_col,
                    },
                    modified: true,
                    duplicates: duplicate_rows(lines),
                    status_message: "removed "@ + decimal(repeats.len() as int)
                        + " duplicate(s)"@,
                    ..editor
                },
                Action::Nothing,
            )
        }),
{
}

/// F5 takes out the rows that are marked as missing, whatever else the editor holds, leaves none
/// marked, and says how many they were.
pub proof fn law_remove_missing_key(editor: EditorView, key: Key, row: usize)
    requires
        key.pressed,
        key.code == KeyCode::F(5),
        editor.missing_emotes.finite(),
        editor.missing_emotes.contains(row),
    ensures
        ({
            let d = editor.document;
            let missing = editor.missing_emotes;
            let lines = without_rows(d.lines, missing);
            editor.press(key) == (
                EditorView {
                    document: Document {
                        lines,
                        cursor_row: moved_up(d.cursor_row, missing, d.lines.len() as int),
                        cursor_col: d.cursor_col,
                    },
                    missing_emotes: Set::empty(),
                    modified: true,
                    duplicates: duplicate_rows(lines),
                    status_message: "removed "@ + decimal(missing.len() as int)
                        + " 404 emote(s)"@,
                    ..editor
                },
                Action::Nothing,
            )
        }),
{
    vstd::set_lib::lemma_set_empty_equivalency_len(editor.missing_emotes);
}

/// F5 without a row that is marked as missing says so and does nothing else.
pub proof fn law_nothing_missing_key(editor: EditorView, key: Key)
    requires
        key.pressed,
        key.code == KeyCode::F(5),
        editor.missing_emotes == Set::<usize>::empty(),
    ensures
        editor.press(key) == (
            EditorView {
                status_message: "no missing emotes to remove,  press F4 to check first!!11!"@,
                ..editor
            },
            Action::Nothing,
        ),
{
}

/// F5 leaves exactly the lines of the rows that are not marked as missing, in their order,
/// whatever else the editor holds.
pub proof fn law_missing_lines_go(editor: EditorView, key: Key, row: usize, others: Seq<int>)
    requires
        key.pressed,
        key.code == KeyCode::F(5),
        editor.document.lines.len() <= usize::MAX,
        editor.missing_emotes.finite(),
        editor.missing_emotes.contains(row),
        forall|p: int, q: int| 0 <= p < q < others.len() ==> others[p] < others[q],
        forall|i: int| #[trigger]
            others.contains(i) <==> 0 <= i < editor.document.lines.len()
                && !editor.missing_emotes.contains(i as usize),
    ensures
        ({
            let next = editor.press(key).0;
            &&& next.document.lines.len() == others.len()
            &&& forall|p: int|
                0 <= p < others.len() ==> #[trigger] next.document.lines[p]
                    == editor.document.lines[others[p]]
            &&& forall|r: usize| !next.missing_emotes.contains(r)
        }),
{
    law_remove_missing_key(editor, key, row);
    law_removal_leaves_the_others(editor.document.lines, editor.missing_emotes, others);
}

/// F3 leaves exactly the lines whose address no line above has, and those without one, in their
/// order, whatever else the editor holds. No address is there twice then.
pub proof fn law_repeating_lines_go(editor: EditorView, key: Key, others: Seq<int>)
    requires
        key.pressed,
        key.code == KeyCode::F(3),
        editor.document.lines.len() <= usize::MAX,
        forall|p: int, q: int| 0 <= p < q < others.len() ==> others[p] < others[q],
        forall|i: int| #[trigger]
            others.contains(i) <==> 0 <= i < editor.document.lines.len() && (url_of(
                editor.document.lines[i],
            ) is None || forall|j: int|
                0 <= j < i ==> url_of(#[trigger] editor.document.lines[j]) != url_of(
                    editor.document.lines[i],
                )),
    ensures
        ({
            let next = editor.press(key).0;
            &&& next.document.lines.len() == others.len()
            &&& forall|p: int|
                0 <= p < others.len() ==> #[trigger] next.document.lines[p]
                    == editor.document.lines[others[p]]
            &&& forall|r: usize| !next.duplicates.contains(r)
        }),
{
    let lines = editor.document.lines;
    let repeats = repeat_rows(lines);
    assert forall|i: int| #[trigger] others.contains(i) <==> 0 <= i < lines.len()
        && !repeats.contains(i as usize) by {
        if 0 <= i < lines.len() {
            law_others_are_not_marked(lines, i as usize);
            if !(url_of(lines[i]) is None || forall|j: int|
                0 <= j < i ==> url_of(#[trigger] lines[j]) != url_of(lines[i])) {
                let j = choose|j: int|
                    0 <= j < i && url_of(#[trigger] lines[j]) == url_of(lines[i]);
                law_same_address_is_marked(lines, j as usize, i as usize);
            }
        }
    }
    law_removal_leaves_the_others(lines, repeats, others);
    law_no_duplicates_left(lines);
}

// ---------------------------------------------------------------------------------------
// Without a key
// ---------------------------------------------------------------------------------------

/// Each operation does what its key does.
pub proof fn law_operations_are_keys(editor: EditorView, key: Key, c: char)
    requires
        key.pressed,
    ensures
        key.code == KeyCode::Char(c) && !key.control && !key.alt ==> editor.insert_char(c)
            == editor.press(key).0,
        key.code is Enter ==> editor.insert_newline() == editor.press(key).0,
        key.code is Backspace ==> editor.delete_char() == editor.press(key).0,
        key.code is Up || key.code is Down || key.code is Left || key.code is Right
            ==> editor.move_cursor(key.code) == editor.press(key).0,
        key.code == KeyCode::Char('z') && key.control ==> editor.undo() == editor.press(key).0,
        key.code == KeyCode::Char('y') && key.control ==> editor.redo() == editor.press(key).0,
        key.code == KeyCode::F(3) ==> editor.remove_duplicates() == editor.press(key).0,
        key.code == KeyCode::F(5) && editor.missing_emotes.len() > 0
            ==> editor.remove_missing_emotes() == editor.press(key).0,
{
}

/// What the operations do where no key leads to them: moving in no direction and removing nothing
/// change nothing; to look for duplicates changes the marks alone; and to put a state away changes
/// what can be undone and redone alone.
pub proof fn law_operations_by_themselves(editor: EditorView, direction: KeyCode)
    ensures
        !(direction is Up || direction is Down || direction is Left || direction is Right)
            ==> editor.move_cursor(direction) == editor,
        editor.missing_emotes.len() == 0 ==> editor.remove_missing_emotes() == editor,
        editor.check_duplicates() == (EditorView {
            duplicates: duplicate_rows(editor.document.lines),
            ..editor
        }),
        editor.save_state() == (EditorView {
            undo_stack: editor.save_state().undo_stack,
            redo_stack: Seq::empty(),
            ..editor
        }),
        editor.undo_stack.len() < editor.max_undo_size ==> editor.save_state().undo_stack
            == editor.undo_stack.push(editor.document),
        editor.undo_stack.len() >= editor.max_undo_size ==> seq![
            editor.undo_stack.push(editor.document)[0],
        ] + editor.save_state().undo_stack == editor.undo_stack.push(editor.document),
{
    let history = editor.undo_stack.push(editor.document);
    assert(seq![history[0]] + history.drop_first() =~= history);
}

} // verus!
