//! What the mathematical values say of the things that they stand for.

use vstd::prelude::*;

use crate::check::{target_texts, CheckStep, CheckStepView, UrlCheck};
use crate::editor::{documents, EditorState, Moaremotes};
use crate::storage::{LoadStep, LoadStepView};

verus! {

/// The mathematical value of an editor holds what the editor holds, field by field.
pub proof fn law_editor_as_it_is(editor: Moaremotes)
    ensures
        editor@.document.lines.len() == editor.lines@.len(),
        forall|i: int|
            0 <= i < editor.lines@.len() ==> #[trigger] editor@.document.lines[i]
                == editor.lines@[i]@,
        editor@.document.cursor_row == editor.cursor_row,
        editor@.document.cursor_col == editor.cursor_col,
        editor@.scroll_offset == editor.scroll_offset,
        editor@.terminal_height == editor.terminal_height,
        editor@.terminal_width == editor.terminal_width,
        editor@.duplicates == editor.duplicates@,
        editor@.missing_emotes == editor.missing_emotes@,
        editor@.status_message == editor.status_message@,
        editor@.filename == editor.filename@,
        editor@.modified == editor.modified,
        editor@.last_screen_hash == editor.last_screen_hash,
        editor@.checking_urls == editor.checking_urls,
        editor@.check_progress.0 == editor.check_progress.0,
        editor@.check_progress.1 == editor.check_progress.1,
        editor@.undo_stack == documents(editor.undo_stack@),
        editor@.redo_stack == documents(editor.redo_stack@),
        editor@.max_undo_size == editor.max_undo_size,
{
}

/// A state that is put away is its lines and its cursor, and a stack is its states in order.
pub proof fn law_states_as_they_are(state: EditorState, stack: Seq<EditorState>)
    ensures
        state@.lines.len() == state.lines@.len(),
        forall|i: int|
            0 <= i < state.lines@.len() ==> #[trigger] state@.lines[i] == state.lines@[i]@,
        state@.cursor_row == state.cursor_row,
        state@.cursor_col == state.cursor_col,
        documents(stack).len() == stack.len(),
        forall|i: int| 0 <= i < stack.len() ==> #[trigger] documents(stack)[i] == stack[i]@,
{
}

/// A check is its targets in order and its counts.
pub proof fn law_checks_as_they_are(check: UrlCheck, targets: Seq<(usize, String)>)
    ensures
        check@.targets == target_texts(check.targets@),
        check@.completed == check.completed,
        check@.good == check.good,
        target_texts(targets).len() == targets.len(),
        forall|i: int|
            0 <= i < targets.len() ==> (#[trigger] target_texts(targets)[i]) == (
                targets[i].0,
                targets[i].1@,
            ),
{
}

/// A step of a check stands for itself.
pub proof fn law_check_steps_as_they_are(step: CheckStep)
    ensures
        step is MakeClient <==> step@ is MakeClient,
        step is End <==> step@ is End,
        step is Done <==> step@ is Done,
        step is Try <==> step@ is Try,
        step is Ask <==> step@ is Ask,
        step is Failed <==> step@ is Failed,
        step matches CheckStep::Try(url) ==> step@ == CheckStepView::Try(url@),
        step matches CheckStep::Ask(chunk) ==> step@ == CheckStepView::Ask(target_texts(chunk@)),
        step matches CheckStep::Failed(error) ==> step@ == CheckStepView::Failed(error@),
{
}

/// A step of a load stands for itself.
pub proof fn law_load_steps_as_they_are(step: LoadStep)
    ensures
        step is Show <==> step@ is Show,
        step is MakeClient <==> step@ is MakeClient,
        step is Send <==> step@ is Send,
        step is Receive <==> step@ is Receive,
        step is Store <==> step@ is Store,
        step is Done <==> step@ is Done,
        step is Failed <==> step@ is Failed,
        step matches LoadStep::Store(content) ==> step@ == LoadStepView::Store(content@),
        step matches LoadStep::Failed(error) ==> step@ == LoadStepView::Failed(error@),
{
}

} // verus!
