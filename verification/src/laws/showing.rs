//! What holds of the screen.

use vstd::prelude::*;
use vstd::utf8::is_ascii_chars;

use crate::laws::editing::{is_plain, lemma_plain_line};
use crate::model::EditorView;
use crate::text::{byte_len, clips, decimal};

verus! {

/// Wherever the terminal has room for text, the cursor is in view once the view is adjusted.
pub proof fn law_cursor_in_view(editor: EditorView)
    requires
        editor.visible_height() > 0,
    ensures
        ({
            let shown = editor.adjust_scroll();
            shown.scroll_offset <= shown.document.cursor_row < shown.scroll_offset
                + shown.visible_height()
        }),
{
}

/// Adjusting the view moves it only where the cursor was out of view, and once is enough.
pub proof fn law_scroll_is_minimal(editor: EditorView)
    requires
        editor.visible_height() > 0,
    ensures
        editor.scroll_offset <= editor.document.cursor_row < editor.scroll_offset
            + editor.visible_height() ==> editor.adjust_scroll() == editor,
        editor.adjust_scroll().adjust_scroll() == editor.adjust_scroll(),
{
}

/// A screen that has been written is not written again as long as nothing on it changes, unless
/// a check is under way.
pub proof fn law_no_second_refresh(editor: EditorView)
    requires
        !editor.checking_urls,
    ensures
        !(EditorView { last_screen_hash: editor.screen_hash(), ..editor }).needs_refresh(),
{
    let written = EditorView { last_screen_hash: editor.screen_hash(), ..editor };
    lemma_same_rows_written(editor, written, editor.scroll_offset, editor.visible_end());
    assert(written.screen_writes() =~= editor.screen_writes());
}

proof fn lemma_same_rows_written(a: EditorView, b: EditorView, from: int, to: int)
    requires
        a.document == b.document,
        a.duplicates == b.duplicates,
        a.missing_emotes == b.missing_emotes,
    ensures
        a.row_writes(from, to) == b.row_writes(from, to),
    decreases to - from,
{
    if from < to {
        lemma_same_rows_written(a, b, from, to - 1);
    }
}

proof fn lemma_decimal_is_plain(n: int)
    requires
        0 <= n,
    ensures
        is_ascii_chars(decimal(n)),
    decreases n,
{
    if n >= 10 {
        lemma_decimal_is_plain(n / 10);
    }
}

proof fn lemma_plain_concat(a: Seq<char>, b: Seq<char>)
    requires
        is_ascii_chars(a),
        is_ascii_chars(b),
    ensures
        is_ascii_chars(a + b),
{
}

proof fn lemma_status_bar_is_plain(editor: EditorView)
    requires
        is_ascii_chars(editor.filename),
        editor.document.cursor_row >= 0,
        editor.document.cursor_col >= 0,
        editor.check_progress.0 >= 0,
        editor.check_progress.1 >= 0,
    ensures
        is_ascii_chars(editor.status_bar()),
{
    reveal_strlit(" ");
    reveal_strlit("*");
    reveal_strlit("");
    reveal_strlit("  row: ");
    reveal_strlit(" col: ");
    reveal_strlit("  checking... ");
    reveal_strlit("/");
    reveal_strlit(" (");
    reveal_strlit(" missing)  ");
    reveal_strlit("  dup: ");
    reveal_strlit(" 404: ");
    reveal_strlit("  F1: help | F2: save | F10: quit  ");
    lemma_decimal_is_plain(editor.document.cursor_row + 1);
    lemma_decimal_is_plain(editor.document.cursor_col + 1);
    lemma_decimal_is_plain(editor.check_progress.0);
    lemma_decimal_is_plain(editor.check_progress.1);
    lemma_decimal_is_plain(editor.missing_emotes.len() as int);
    lemma_decimal_is_plain(editor.duplicates.len() as int);
    let mark = if editor.modified {
        "*"@
    } else {
        ""@
    };
    lemma_plain_concat(" "@, editor.filename);
    lemma_plain_concat(" "@ + editor.filename, mark);
    let named = " "@ + editor.filename + mark;
    lemma_plain_concat(named, "  row: "@);
    let row = named + "  row: "@ + decimal(editor.document.cursor_row + 1);
    lemma_plain_concat(row, " col: "@);
    let col = row + " col: "@ + decimal(editor.document.cursor_col + 1);
    lemma_plain_concat(row + " col: "@, decimal(editor.document.cursor_col + 1));
    if editor.checking_urls {
        let done = col + "  checking... "@ + decimal(editor.check_progress.0);
        let all = done + "/"@ + decimal(editor.check_progress.1);
        let gone = all + " ("@ + decimal(editor.missing_emotes.len() as int);
        lemma_plain_concat(col, "  checking... "@);
        lemma_plain_concat(done, "/"@);
        lemma_plain_concat(all, " ("@);
        lemma_plain_concat(gone, " missing)  "@);
    } else {
        let marked = col + "  dup: "@ + decimal(editor.duplicates.len() as int);
        let gone = marked + " 404: "@ + decimal(editor.missing_emotes.len() as int);
        lemma_plain_concat(col, "  dup: "@);
        lemma_plain_concat(marked, " 404: "@);
        lemma_plain_concat(gone, "  F1: help | F2: save | F10: quit  "@);
    }
}

proof fn lemma_plain_clips(s: Seq<char>, width: int)
    requires
        is_ascii_chars(s),
        0 <= width,
    ensures
        clips(s, width),
{
    vstd::utf8::is_ascii_chars_encode_utf8(s);
    if byte_len(s) > width {
        lemma_plain_line(s, width);
    }
}

/// Plain text under a plain name and message can be shown on a terminal of any size that has a
/// row.
pub proof fn law_plain_text_can_be_shown(editor: EditorView)
    requires
        editor.countable(),
        editor.terminal_height >= 1,
        editor.terminal_width >= 0,
        editor.document.cursor_row >= 0,
        editor.document.cursor_col >= 0,
        editor.scroll_offset >= 0,
        editor.check_progress.0 >= 0,
        editor.check_progress.1 >= 0,
        is_plain(editor.document.lines),
        is_ascii_chars(editor.filename),
        is_ascii_chars(editor.status_message),
    ensures
        editor.displayable(),
{
    let shown = editor.adjust_scroll();
    lemma_status_bar_is_plain(editor);
    lemma_plain_clips(editor.status_bar(), editor.terminal_width);
    lemma_plain_clips(editor.status_message, editor.terminal_width);
    assert forall|row: int| shown.scroll_offset <= row < shown.visible_end() implies clips(
        #[trigger] editor.document.lines[row],
        editor.line_width(),
    ) by {
        lemma_plain_clips(editor.document.lines[row], editor.line_width());
    }
}

} // verus!
