//! What loading and saving do, step by step.

use vstd::prelude::*;

use crate::model::{loaded_lines, Document, EditorView};
use crate::rows::duplicate_rows;
use crate::storage::{
    failure_prefix, objection, saved_text, told, told_text, Failure, LoadEvent, LoadStepView,
};
use crate::text::decimal;

verus! {

/// The editor starts with one empty line, on a terminal of the given size, with nothing marked,
/// nothing to undo, and room for a hundred states to undo.
pub proof fn law_start(width: int, height: int)
    ensures
        ({
            let editor = EditorView::start(width, height);
            &&& editor.document.lines.len() == 1
            &&& editor.document.lines[0].len() == 0
            &&& editor.document.cursor_row == 0
            &&& editor.document.cursor_col == 0
            &&& editor.scroll_offset == 0
            &&& editor.terminal_height == height
            &&& editor.terminal_width == width
            &&& editor.duplicates == Set::<usize>::empty()
            &&& editor.missing_emotes == Set::<usize>::empty()
            &&& editor.status_message == "welcome to moaremotes emote thing!! press F1 for help"@
            &&& editor.filename == "emotes.json"@
            &&& !editor.modified
            &&& editor.last_screen_hash == 0
            &&& !editor.checking_urls
            &&& editor.check_progress == (0int, 0int)
            &&& editor.undo_stack.len() == 0
            &&& editor.redo_stack.len() == 0
            &&& editor.max_undo_size == 100
        }),
{
}

/// A text that is JSON takes the place of the one before, unmodified and with its duplicates
/// marked, with the cursor and the view at the top. What is missing, what can be undone and all
/// else stay.
pub proof fn law_loading(editor: EditorView, content: Seq<char>)
    ensures
        editor.load(content, None) == (
            EditorView {
                document: Document { lines: loaded_lines(content), cursor_row: 0, cursor_col: 0 },
                scroll_offset: 0,
                modified: false,
                duplicates: duplicate_rows(loaded_lines(content)),
                ..editor
            },
            Ok::<(), Seq<char>>(()),
        ),
{
}

/// A text that is not JSON is refused, with what is wrong with it.
pub proof fn law_loading_refused(editor: EditorView, content: Seq<char>, error: Seq<char>)
    ensures
        editor.load(content, Some(error)) == (
            editor,
            Err::<(), Seq<char>>("invalid json: "@ + error),
        ),
{
}

/// A file is loaded as its content is, and the text then goes by the name of the file. A file that
/// cannot be read, or is not JSON, changes nothing.
pub proof fn law_loading_a_file(
    editor: EditorView,
    path: Seq<char>,
    content: Seq<char>,
    error: Seq<char>,
    unread: Option<Seq<char>>,
)
    ensures
        editor.load_from_file(path, Ok(content), None) == (
            EditorView {
                document: Document { lines: loaded_lines(content), cursor_row: 0, cursor_col: 0 },
                scroll_offset: 0,
                modified: false,
                duplicates: duplicate_rows(loaded_lines(content)),
                filename: path,
                status_message: "loaded from "@ + path,
                ..editor
            },
            Ok::<(), Seq<char>>(()),
        ),
        editor.load_from_file(path, Ok(content), Some(error)) == (
            editor,
            Err::<(), Seq<char>>("invalid json: "@ + error),
        ),
        editor.load_from_file(path, Err(error), unread) == (
            editor,
            Err::<(), Seq<char>>("failed to read file "@ + path + ": "@ + error),
        ),
{
}

/// A text that is JSON is saved as it is, and any other is refused, with what is wrong with it.
pub proof fn law_saving(content: Seq<char>, error: Seq<char>)
    ensures
        saved_text(content, None) == Ok::<Seq<char>, Seq<char>>(content),
        saved_text(content, Some(error)) == Err::<Seq<char>, Seq<char>>(
            "cannot save invalid JSON: "@ + error,
        ),
{
}

/// Once the file is written the text is not modified any more, and this is said. Where it is not,
/// nothing changes.
pub proof fn law_saved(editor: EditorView, error: Seq<char>)
    ensures
        editor.save_written(Ok(())) == (
            EditorView {
                modified: false,
                status_message: "saved to "@ + editor.filename,
                ..editor
            },
            Ok::<(), Seq<char>>(()),
        ),
        editor.save_written(Err(error)) == (
            editor,
            Err::<(), Seq<char>>("failed to save: "@ + error),
        ),
{
}

/// What a message about a failure starts with.
pub proof fn law_failures()
    ensures
        failure_prefix(Failure::Save) == "save error: "@,
        failure_prefix(Failure::Check) == "error checking urls: "@,
        failure_prefix(Failure::Load) == "error: "@,
        failure_prefix(Failure::Startup) == "warning: "@,
{
}

/// A result says what it carries.
pub proof fn law_results(done: Result<(), String>, read: Result<String, String>)
    ensures
        done matches Ok(_) ==> told(done) == Ok::<(), Seq<char>>(()) && objection(done) is None,
        done matches Err(error) ==> told(done) == Err::<(), Seq<char>>(error@) && objection(done)
            == Some(error@),
        read matches Ok(text) ==> told_text(read) == Ok::<Seq<char>, Seq<char>>(text@),
        read matches Err(error) ==> told_text(read) == Err::<Seq<char>, Seq<char>>(error@),
{
}

/// As long as nothing fails, a list from the net is announced and the screen written; then a
/// client is made, the request sent, the answer read, the list taken over as any text is and
/// stored; and in the end this is said.
pub proof fn law_steps_of_a_load(
    editor: EditorView,
    url: Seq<char>,
    event: LoadEvent,
    said: Option<Seq<char>>,
)
    ensures
        ({
            let (next, step) = editor.load_from_url(url, event, said);
            &&& event is Wanted ==> step == LoadStepView::Show && next == (EditorView {
                status_message: "loading from "@ + url + "..."@,
                ..editor
            })
            &&& (event matches LoadEvent::Shown(Ok(_))) ==> step == LoadStepView::MakeClient && next
                == editor
            &&& (event matches LoadEvent::Client(Ok(_))) ==> step == LoadStepView::Send && next
                == editor
            &&& (event matches LoadEvent::Answered(Ok(code)) && 200 <= code < 300) ==> step
                == LoadStepView::Receive && next == editor
            &&& event matches LoadEvent::Received(Ok(content)) ==> said is None ==> step
                == LoadStepView::Store(content@) && next == (EditorView {
                document: Document { lines: loaded_lines(content@), cursor_row: 0, cursor_col: 0 },
                scroll_offset: 0,
                modified: false,
                duplicates: duplicate_rows(loaded_lines(content@)),
                ..editor
            })
            &&& (event matches LoadEvent::Stored(Ok(_))) ==> step == LoadStepView::Done && next == (
            EditorView { status_message: "successfully loaded from "@ + url, ..editor })
        }),
{
}

/// Where something fails, this is said, and the editor stays as it is.
pub proof fn law_failures_of_a_load(
    editor: EditorView,
    url: Seq<char>,
    event: LoadEvent,
    said: Option<Seq<char>>,
)
    ensures
        ({
            let (next, step) = editor.load_from_url(url, event, said);
            &&& event matches LoadEvent::Shown(Err(error)) ==> next == editor && step
                == LoadStepView::Failed("display error: "@ + error@)
            &&& event matches LoadEvent::Client(Err(error)) ==> next == editor && step
                == LoadStepView::Failed("failed to create client: "@ + error@)
            &&& event matches LoadEvent::Answered(Err(error)) ==> next == editor && step
                == LoadStepView::Failed("request failed: "@ + error@)
            &&& event matches LoadEvent::Answered(Ok(code)) ==> !(200 <= code < 300) ==> next
                == editor && step == LoadStepView::Failed(
                "HTTP error: "@ + (decimal(code as int) + " "@ + (match said {
                    Some(phrase) => phrase,
                    None => "<unknown status code>"@,
                })),
            )
            &&& event matches LoadEvent::Received(Err(error)) ==> next == editor && step
                == LoadStepView::Failed("failed to read response: "@ + error@)
            &&& event matches LoadEvent::Received(Ok(_)) ==> said matches Some(error) ==> next
                == editor && step == LoadStepView::Failed("invalid json: "@ + error)
            &&& event matches LoadEvent::Stored(Err(error)) ==> next == editor && step
                == LoadStepView::Failed("failed to save file: "@ + error@)
        }),
{
}

} // verus!
