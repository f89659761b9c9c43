//! What is drawn.

use std::collections::hash_map::DefaultHasher;
use vstd::bytes::{lemma_auto_spec_u64_to_from_le_bytes, spec_u64_to_le_bytes};
use vstd::prelude::*;
use vstd::std_specs::hash::DefaultHasherAdditionalSpecFns;
use vstd::utf8::encode_utf8;

use crate::model::EditorView;
use crate::screen::flag_bytes;
use crate::text::{byte_len, clipped, clips, decimal, padded, spaces};

verus! {

// ---------------------------------------------------------------------------------------
// Rows of the text
// ---------------------------------------------------------------------------------------

/// Where row `i` of the terminal shows row `row` of the text, at whatever scroll offset, it shows
/// the number and the line of `row`, as a duplicate exactly where `row` is one, as missing exactly
/// where `row` is missing and no duplicate, and without a mark otherwise.
pub proof fn law_rows_carry_their_marks(editor: EditorView, i: int, row: usize)
    requires
        0 <= i,
        editor.scroll_offset + i == row,
        row < editor.document.lines.len(),
    ensures
        ({
            let room = if editor.terminal_width > 25 {
                editor.terminal_width - 25
            } else {
                0
            };
            let line = clipped(editor.document.lines[row as int], room);
            let number = "\x1b[90m"@ + padded(decimal(row + 1), 4) + " \x1b[0m"@;
            let end = if i + 1 < editor.terminal_height - 3 {
                "\r\n"@
            } else {
                seq![]
            };
            &&& editor.duplicates.contains(row) ==> editor.row_text(i) == number + (
            "\x1b[41m\x1b[37m"@ + line + "\x1b[0m ← DUPLICATE"@) + end
            &&& !editor.duplicates.contains(row) && editor.missing_emotes.contains(row)
                ==> editor.row_text(i) == number + ("\x1b[45m\x1b[37m"@ + line
                + "\x1b[0m ← MISSING/404"@) + end
            &&& !editor.duplicates.contains(row) && !editor.missing_emotes.contains(row)
                ==> editor.row_text(i) == number + line + end
        }),
{
}

/// A row of the terminal below the text shows a tilde.
pub proof fn law_rows_below_the_text(editor: EditorView, i: int)
    requires
        0 <= i,
        editor.scroll_offset + i >= editor.document.lines.len(),
    ensures
        editor.row_text(i) == "\x1b[34m~\x1b[0m"@ + (if i + 1 < editor.terminal_height - 3 {
            "\r\n"@
        } else {
            seq![]
        }),
{
}

/// What is shown of a row depends on the row, on its marks and on the width of the terminal alone:
/// it is the same wherever the text is scrolled to, and whatever else is in it.
pub proof fn law_rows_look_the_same(a: EditorView, b: EditorView, i: int, j: int, row: usize)
    requires
        a.scroll_offset + i == row,
        b.scroll_offset + j == row,
        row < a.document.lines.len(),
        row < b.document.lines.len(),
        a.document.lines[row as int] == b.document.lines[row as int],
        a.duplicates.contains(row) == b.duplicates.contains(row),
        a.missing_emotes.contains(row) == b.missing_emotes.contains(row),
        a.terminal_width == b.terminal_width,
        i + 1 < a.terminal_height - 3,
        j + 1 < b.terminal_height - 3,
    ensures
        a.row_text(i) == b.row_text(j),
{
}

proof fn lemma_pieces(editor: EditorView, pieces: Seq<Seq<char>>)
    requires
        forall|i: int| 0 <= i < pieces.len() ==> #[trigger] pieces[i] == editor.row_text(i),
    ensures
        pieces.flatten() == editor.rows_text(pieces.len() as int),
    decreases pieces.len(),
{
    if pieces.len() == 0 {
        assert(pieces.flatten() =~= seq![]);
    } else {
        let fewer = pieces.drop_last();
        lemma_pieces(editor, fewer);
        fewer.lemma_flatten_push(pieces.last());
        assert(fewer.push(pieces.last()) =~= pieces);
    }
}

// ---------------------------------------------------------------------------------------
// The whole screen
// ---------------------------------------------------------------------------------------

/// The screen is wiped and then holds the rows one after another, as many as the terminal has but
/// for three; the status bar, filled up to the width of the terminal, on the last row but one; the
/// message on the last row; and the cursor in its row, right of the numbers.
pub proof fn law_screen(
    editor: EditorView,
    pieces: Seq<Seq<char>>,
    bar: Seq<char>,
    message: Seq<char>,
)
    requires
        editor.terminal_height >= 0,
        pieces.len() == (if editor.terminal_height > 3 {
            editor.terminal_height - 3
        } else {
            0
        }),
        forall|i: int| 0 <= i < pieces.len() ==> #[trigger] pieces[i] == editor.row_text(i),
        bar == clipped(editor.status_bar(), editor.terminal_width),
        message == clipped(editor.status_message, editor.terminal_width),
    ensures
        editor.screen_text() == "\x1b[2J\x1b[H"@ + pieces.flatten() + "\x1b["@ + decimal(
            editor.terminal_height - 1,
        ) + ";1H"@ + "\x1b[100m\x1b[37m"@ + bar + spaces(editor.terminal_width - byte_len(bar))
            + "\x1b[0m"@ + "\x1b["@ + decimal(editor.terminal_height) + ";1H\x1b[2K"@ + message
            + "\x1b["@ + decimal(
            if editor.document.cursor_row > editor.scroll_offset {
                editor.document.cursor_row - editor.scroll_offset + 1
            } else {
                1
            },
        ) + ";"@ + decimal(editor.document.cursor_col + 6) + "H"@,
{
    lemma_pieces(editor, pieces);
}

/// As many spaces as are asked for, and nothing else.
pub proof fn law_spaces(n: int)
    ensures
        spaces(n).len() == (if n > 0 {
            n
        } else {
            0
        }),
        forall|i: int| 0 <= i < spaces(n).len() ==> #[trigger] spaces(n)[i] == ' ',
{
}

/// What the status bar says: the name of the list, a star where it is modified, where the cursor
/// is counted from one, and how many rows are marked, or how far a check is.
pub proof fn law_status_bar(editor: EditorView)
    ensures
        ({
            let name = " "@ + editor.filename;
            let named = if editor.modified {
                name + "*"@
            } else {
                name
            };
            let placed = named + "  row: "@ + decimal(editor.document.cursor_row + 1) + " col: "@
                + decimal(editor.document.cursor_col + 1);
            let missing = decimal(editor.missing_emotes.len() as int);
            &&& editor.checking_urls ==> editor.status_bar() == placed + "  checking... "@
                + decimal(editor.check_progress.0) + "/"@ + decimal(editor.check_progress.1)
                + " ("@ + missing + " missing)  "@
            &&& !editor.checking_urls ==> editor.status_bar() == placed + "  dup: "@ + decimal(
                editor.duplicates.len() as int,
            ) + " 404: "@ + missing + "  F1: help | F2: save | F10: quit  "@
        }),
{
    reveal_strlit("");
    assert(" "@ + editor.filename + ""@ =~= " "@ + editor.filename);
}

// ---------------------------------------------------------------------------------------
// Scrolling
// ---------------------------------------------------------------------------------------

/// Scrolling to the cursor leaves the view where it is if the cursor is in it; brings the cursor
/// to the first row if it is above, and to the last if it is below. Nothing else changes.
pub proof fn law_scrolling(editor: EditorView)
    requires
        editor.terminal_height > 3,
    ensures
        ({
            let height = editor.terminal_height - 3;
            let row = editor.document.cursor_row;
            let shown = editor.adjust_scroll();
            &&& shown == (EditorView { scroll_offset: shown.scroll_offset, ..editor })
            &&& editor.scroll_offset <= row < editor.scroll_offset + height
                ==> shown.scroll_offset == editor.scroll_offset
            &&& row < editor.scroll_offset ==> shown.scroll_offset == row
            &&& row >= editor.scroll_offset + height ==> shown.scroll_offset + height - 1 == row
            &&& shown.visible_height() == height
        }),
{
}

/// On a terminal without room for text, the view starts where the cursor is not above it.
pub proof fn law_scrolling_without_room(editor: EditorView)
    requires
        editor.terminal_height <= 3,
    ensures
        ({
            let row = editor.document.cursor_row;
            let shown = editor.adjust_scroll();
            &&& shown == (EditorView { scroll_offset: shown.scroll_offset, ..editor })
            &&& row < editor.scroll_offset ==> shown.scroll_offset == row
            &&& row >= editor.scroll_offset ==> shown.scroll_offset == row + 1
            &&& shown.visible_height() == 0
        }),
{
}

/// What can be scrolled: a view whose rows, and a cursor whose next row, have numbers that the
/// machine has.
pub proof fn law_what_can_be_scrolled(editor: EditorView)
    ensures
        ({
            let height = if editor.terminal_height > 3 {
                editor.terminal_height - 3
            } else {
                0
            };
            let row = editor.document.cursor_row;
            editor.scrollable() <==> (row < editor.scroll_offset || editor.scroll_offset + height
                <= usize::MAX) && (height > 0 || row < usize::MAX)
        }),
{
}

/// What can be shown: a text, a status bar and a message that the width of the terminal cuts
/// between two characters, if at all, on a terminal with a row, with numbers that the machine has.
pub proof fn law_what_can_be_shown(editor: EditorView)
    ensures
        ({
            let height = if editor.terminal_height > 3 {
                editor.terminal_height - 3
            } else {
                0
            };
            let room = if editor.terminal_width > 25 {
                editor.terminal_width - 25
            } else {
                0
            };
            let top = editor.adjust_scroll().scroll_offset;
            editor.displayable() <==> {
                &&& editor.scroll_offset + height <= usize::MAX
                &&& editor.document.cursor_row < usize::MAX
                &&& editor.document.cursor_col + 6 <= usize::MAX
                &&& editor.terminal_height >= 1
                &&& clips(editor.status_bar(), editor.terminal_width)
                &&& clips(editor.status_message, editor.terminal_width)
                &&& forall|row: int|
                    top <= row < top + height && row < editor.document.lines.len() ==> clips(
                        #[trigger] editor.document.lines[row],
                        room,
                    )
            }
        }),
{
}

// ---------------------------------------------------------------------------------------
// The fingerprint
// ---------------------------------------------------------------------------------------

/// The screen is written anew exactly where a check is under way, or where its fingerprint is not
/// that of the one written last.
pub proof fn law_when_to_write(editor: EditorView)
    ensures
        editor.needs_refresh() <==> editor.checking_urls || DefaultHasher::spec_finish(
            editor.screen_writes(),
        ) != editor.last_screen_hash,
        editor.screen_hash() == DefaultHasher::spec_finish(editor.screen_writes()),
        editor.refreshable() <==> {
            &&& editor.scroll_offset + (if editor.terminal_height > 3 {
                editor.terminal_height - 3
            } else {
                0
            }) <= usize::MAX
            &&& editor.needs_refresh() ==> editor.displayable()
        },
{
}

/// What the fingerprint is made from: the cursor, the view, how many rows are marked, the message,
/// what the status bar says, and each line in view with its marks.
pub proof fn law_fingerprint(editor: EditorView, rows: Seq<Seq<Seq<u8>>>)
    requires
        0 <= editor.scroll_offset,
        ({
            let height = if editor.terminal_height > 3 {
                editor.terminal_height - 3
            } else {
                0
            };
            let below = editor.document.lines.len() - editor.scroll_offset;
            rows.len() == (if below < 0 {
                0
            } else if below < height {
                below
            } else {
                height
            })
        }),
        forall|i: int| #![trigger rows[i]]
            0 <= i < rows.len() ==> {
                let row = (editor.scroll_offset + i) as usize;
                rows[i] == seq![
                    encode_utf8(editor.document.lines[editor.scroll_offset + i]),
                    seq![0xffu8],
                    seq![
                        if editor.duplicates.contains(row) {
                            1u8
                        } else {
                            0u8
                        },
                    ],
                    seq![
                        if editor.missing_emotes.contains(row) {
                            1u8
                        } else {
                            0u8
                        },
                    ],
                ]
            },
    ensures
        editor.screen_writes() == seq![
            spec_u64_to_le_bytes(editor.document.cursor_row as u64),
            spec_u64_to_le_bytes(editor.document.cursor_col as u64),
            spec_u64_to_le_bytes(editor.scroll_offset as u64),
            spec_u64_to_le_bytes(editor.duplicates.len() as u64),
            spec_u64_to_le_bytes(editor.missing_emotes.len() as u64),
            encode_utf8(editor.status_message),
            seq![0xffu8],
            seq![
                if editor.modified {
                    1u8
                } else {
                    0u8
                },
            ],
            seq![
                if editor.checking_urls {
                    1u8
                } else {
                    0u8
                },
            ],
            spec_u64_to_le_bytes(editor.check_progress.0 as u64),
            spec_u64_to_le_bytes(editor.check_progress.1 as u64),
        ] + rows.flatten(),
{
    let from = editor.scroll_offset;
    lemma_row_writes(editor, rows);
    assert(editor.row_writes(from, from + rows.len()) =~= editor.row_writes(
        from,
        editor.visible_end(),
    ));
}

proof fn lemma_row_writes(editor: EditorView, rows: Seq<Seq<Seq<u8>>>)
    requires
        forall|i: int| #![trigger rows[i]]
            0 <= i < rows.len() ==> {
                let row = (editor.scroll_offset + i) as usize;
                rows[i] == seq![
                    encode_utf8(editor.document.lines[editor.scroll_offset + i]),
                    seq![0xffu8],
                    seq![
                        if editor.duplicates.contains(row) {
                            1u8
                        } else {
                            0u8
                        },
                    ],
                    seq![
                        if editor.missing_emotes.contains(row) {
                            1u8
                        } else {
                            0u8
                        },
                    ],
                ]
            },
    ensures
        rows.flatten() == editor.row_writes(
            editor.scroll_offset,
            editor.scroll_offset + rows.len(),
        ),
    decreases rows.len(),
{
    let from = editor.scroll_offset;
    if rows.len() == 0 {
        assert(rows.flatten() =~= seq![]);
    } else {
        let fewer = rows.drop_last();
        lemma_row_writes(editor, fewer);
        fewer.lemma_flatten_push(rows.last());
        assert(fewer.push(rows.last()) =~= rows);
        assert(rows.last() == rows[rows.len() - 1]);
        assert(rows.flatten() =~= editor.row_writes(from, from + rows.len()));
    }
}

proof fn lemma_row_writes_at(editor: EditorView, from: int, to: int, row: int)
    requires
        from <= to,
    ensures
        editor.row_writes(from, to).len() == 4 * (to - from),
        from <= row < to ==> {
            let writes = editor.row_writes(from, to);
            let at = 4 * (row - from);
            &&& writes[at] == encode_utf8(editor.document.lines[row])
            &&& writes[at + 2] == flag_bytes(editor.duplicates.contains(row as usize))
            &&& writes[at + 3] == flag_bytes(editor.missing_emotes.contains(row as usize))
        },
    decreases to - from,
{
    if from < to {
        lemma_row_writes_at(editor, from, to - 1, row);
    }
}

proof fn lemma_first_writes(editor: EditorView)
    ensures
        ({
            let writes = editor.screen_writes();
            &&& writes.len() >= 11
            &&& writes[0] == spec_u64_to_le_bytes(editor.document.cursor_row as u64)
            &&& writes[1] == spec_u64_to_le_bytes(editor.document.cursor_col as u64)
            &&& writes[2] == spec_u64_to_le_bytes(editor.scroll_offset as u64)
            &&& writes[3] == spec_u64_to_le_bytes(editor.duplicates.len() as u64)
            &&& writes[4] == spec_u64_to_le_bytes(editor.missing_emotes.len() as u64)
            &&& writes[5] == encode_utf8(editor.status_message)
            &&& writes[7] == flag_bytes(editor.modified)
            &&& writes[8] == flag_bytes(editor.checking_urls)
            &&& writes[9] == spec_u64_to_le_bytes(editor.check_progress.0 as u64)
            &&& writes[10] == spec_u64_to_le_bytes(editor.check_progress.1 as u64)
        }),
{
}

proof fn lemma_numbers_differ(m: u64, n: u64)
    requires
        spec_u64_to_le_bytes(m) == spec_u64_to_le_bytes(n),
    ensures
        m == n,
{
    lemma_auto_spec_u64_to_from_le_bytes();
}

proof fn lemma_flags_differ(a: bool, b: bool)
    requires
        flag_bytes(a) == flag_bytes(b),
    ensures
        a == b,
{
    assert(seq![1u8][0] != seq![0u8][0]);
}

/// Two screens with the same fingerprint material have the cursor in one place, are scrolled to
/// one row, and have one message, one progress and as many marks.
pub proof fn law_fingerprint_tells_apart(a: EditorView, b: EditorView)
    requires
        a.screen_writes() == b.screen_writes(),
        0 <= a.document.cursor_row <= u64::MAX,
        0 <= b.document.cursor_row <= u64::MAX,
        0 <= a.document.cursor_col <= u64::MAX,
        0 <= b.document.cursor_col <= u64::MAX,
        0 <= a.scroll_offset <= u64::MAX,
        0 <= b.scroll_offset <= u64::MAX,
        a.duplicates.len() <= u64::MAX,
        b.duplicates.len() <= u64::MAX,
        a.missing_emotes.len() <= u64::MAX,
        b.missing_emotes.len() <= u64::MAX,
        0 <= a.check_progress.0 <= u64::MAX,
        0 <= b.check_progress.0 <= u64::MAX,
        0 <= a.check_progress.1 <= u64::MAX,
        0 <= b.check_progress.1 <= u64::MAX,
    ensures
        a.document.cursor_row == b.document.cursor_row,
        a.document.cursor_col == b.document.cursor_col,
        a.scroll_offset == b.scroll_offset,
        a.duplicates.len() == b.duplicates.len(),
        a.missing_emotes.len() == b.missing_emotes.len(),
        a.status_message == b.status_message,
        a.modified == b.modified,
        a.checking_urls == b.checking_urls,
        a.check_progress == b.check_progress,
{
    lemma_first_writes(a);
    lemma_first_writes(b);
    lemma_numbers_differ(a.document.cursor_row as u64, b.document.cursor_row as u64);
    lemma_numbers_differ(a.document.cursor_col as u64, b.document.cursor_col as u64);
    lemma_numbers_differ(a.scroll_offset as u64, b.scroll_offset as u64);
    lemma_numbers_differ(a.duplicates.len() as u64, b.duplicates.len() as u64);
    lemma_numbers_differ(a.missing_emotes.len() as u64, b.missing_emotes.len() as u64);
    lemma_numbers_differ(a.check_progress.0 as u64, b.check_progress.0 as u64);
    lemma_numbers_differ(a.check_progress.1 as u64, b.check_progress.1 as u64);
    lemma_flags_differ(a.modified, b.modified);
    lemma_flags_differ(a.checking_urls, b.checking_urls);
    vstd::utf8::encode_utf8_decode_utf8(a.status_message);
    vstd::utf8::encode_utf8_decode_utf8(b.status_message);
}

/// Two screens with the same fingerprint material show the same lines, with the same marks.
#[verifier::spinoff_prover]
pub proof fn law_fingerprint_tells_lines_apart(a: EditorView, b: EditorView, row: usize)
    requires
        a.screen_writes() == b.screen_writes(),
        a.scroll_offset == b.scroll_offset,
        0 <= a.scroll_offset <= row < a.visible_end(),
        b.scroll_offset <= b.document.lines.len(),
    ensures
        row < b.visible_end(),
        a.document.lines[row as int] == b.document.lines[row as int],
        a.duplicates.contains(row) == b.duplicates.contains(row),
        a.missing_emotes.contains(row) == b.missing_emotes.contains(row),
{
    let from = a.scroll_offset;
    let ra = a.row_writes(from, a.visible_end());
    let rb = b.row_writes(from, b.visible_end());
    assert(ra =~= a.screen_writes().skip(11));
    assert(rb =~= b.screen_writes().skip(11));
    assert(ra == rb);
    assert(from <= b.visible_end()) by {
        assert(b.visible_height() >= 0);
    }
    lemma_row_writes_at(a, from, a.visible_end(), row as int);
    lemma_row_writes_at(b, from, b.visible_end(), row as int);
    assert(a.visible_end() == b.visible_end());
    let at = 4 * (row - from);
    assert(ra[at + 2] == rb[at + 2] && ra[at + 3] == rb[at + 3]);
    lemma_flags_differ(a.duplicates.contains(row), b.duplicates.contains(row));
    lemma_flags_differ(a.missing_emotes.contains(row), b.missing_emotes.contains(row));
    vstd::utf8::encode_utf8_decode_utf8(a.document.lines[row as int]);
    vstd::utf8::encode_utf8_decode_utf8(b.document.lines[row as int]);
}

} // verus!
