//! What holds of saving a text and loading it again.

use vstd::prelude::*;

use crate::json::json_error;
use crate::model::{loaded_lines, EditorView};
use crate::storage::{saved_text, LoadEvent};
use crate::text::{find, joined, lemma_find, lemma_find_is, split_lines, without_return};

verus! {

/// Whether the lines of a text can be told apart once they are put together: there is one at
/// least; none holds a line feed; none but the last ends in a carriage return; and the last of
/// several is not empty.
pub open spec fn storable(lines: Seq<Seq<char>>) -> bool {
    &&& lines.len() > 0
    &&& forall|i: int| 0 <= i < lines.len() ==> !(#[trigger] lines[i]).contains('\n')
    &&& forall|i: int| 0 <= i < lines.len() - 1 ==> without_return(#[trigger] lines[i]) == lines[i]
    &&& lines.len() == 1 || lines.last().len() > 0
}

proof fn lemma_joined_first(lines: Seq<Seq<char>>)
    requires
        lines.len() > 1,
    ensures
        joined(lines) == lines[0] + seq!['\n'] + joined(lines.drop_first()),
    decreases lines.len(),
{
    let rest = lines.drop_first();
    if lines.len() == 2 {
        assert(lines.drop_last().len() == 1);
        assert(joined(lines.drop_last()) == lines[0]);
        assert(joined(rest) == lines[1]);
    } else {
        let init = lines.drop_last();
        lemma_joined_first(init);
        assert(init.drop_first() =~= rest.drop_last());
        assert(joined(rest) == joined(rest.drop_last()) + seq!['\n'] + rest.last());
        assert(joined(lines) =~= lines[0] + seq!['\n'] + joined(rest));
    }
}

/// A line without a line feed, a line feed, and the rest.
proof fn lemma_split_first(line: Seq<char>, rest: Seq<char>)
    requires
        !line.contains('\n'),
    ensures
        split_lines(line + seq!['\n'] + rest) == seq![without_return(line)] + split_lines(rest),
{
    let s = line + seq!['\n'] + rest;
    assert forall|j: int| 0 <= j < line.len() implies s[j] != '\n' by {
        assert(line.contains(line[j]));
    }
    lemma_find_is(s, '\n', 0, line.len() as int);
    assert(s.take(line.len() as int) =~= line);
    assert(s.skip(line.len() as int + 1) =~= rest);
}

proof fn lemma_split_single(line: Seq<char>)
    requires
        !line.contains('\n'),
    ensures
        split_lines(line) == (if line.len() == 0 {
            seq![]
        } else {
            seq![line]
        }),
{
    lemma_find(line, '\n', 0);
    match find(line, '\n', 0) {
        Some(k) => {
            assert(line.contains(line[k]));
        },
        None => {},
    }
}

proof fn lemma_split_joined(lines: Seq<Seq<char>>)
    requires
        storable(lines),
        lines.last().len() > 0,
    ensures
        split_lines(joined(lines)) == lines,
    decreases lines.len(),
{
    if lines.len() == 1 {
        lemma_split_single(lines[0]);
        assert(split_lines(joined(lines)) =~= lines);
    } else {
        let rest = lines.drop_first();
        lemma_joined_first(lines);
        lemma_split_first(lines[0], joined(rest));
        assert(storable(rest)) by {
            assert forall|i: int| 0 <= i < rest.len() implies !(#[trigger] rest[i]).contains(
                '\n',
            ) by {
                assert(rest[i] == lines[i + 1]);
            }
            assert forall|i: int| 0 <= i < rest.len() - 1 implies without_return(#[trigger] rest[i])
                == rest[i] by {
                assert(rest[i] == lines[i + 1]);
            }
        }
        lemma_split_joined(rest);
        assert(split_lines(joined(lines)) =~= lines);
    }
}

proof fn lemma_split_has_no_breaks(s: Seq<char>)
    ensures
        forall|i: int|
            0 <= i < split_lines(s).len() ==> !(#[trigger] split_lines(s)[i]).contains('\n'),
    decreases s.len(),
{
    lemma_find(s, '\n', 0);
    match find(s, '\n', 0) {
        Some(k) => {
            let rest = s.skip(k + 1);
            lemma_split_has_no_breaks(rest);
            let first = without_return(s.take(k));
            assert(!first.contains('\n')) by {
                if first.contains('\n') {
                    let j = choose|j: int| 0 <= j < first.len() && first[j] == '\n';
                    assert(s[j] == '\n');
                }
            }
            assert forall|i: int| 0 <= i < split_lines(s).len() implies !(#[trigger] split_lines(
                s,
            )[i]).contains('\n') by {
                if i > 0 {
                    assert(split_lines(s)[i] == split_lines(rest)[i - 1]);
                }
            }
        },
        None => {
            assert(!s.contains('\n'));
        },
    }
}

proof fn lemma_split_joined_back(lines: Seq<Seq<char>>)
    requires
        lines.len() > 0,
        split_lines(joined(lines)) == lines,
    ensures
        storable(lines),
        lines.last().len() > 0,
    decreases lines.len(),
{
    lemma_split_has_no_breaks(joined(lines));
    if lines.len() == 1 {
        assert(!lines[0].contains('\n'));
        lemma_split_single(lines[0]);
    } else {
        let rest = lines.drop_first();
        assert(!lines[0].contains('\n'));
        lemma_joined_first(lines);
        lemma_split_first(lines[0], joined(rest));
        assert(split_lines(joined(lines))[0] == without_return(lines[0]));
        assert(split_lines(joined(rest)) =~= rest) by {
            assert(split_lines(joined(lines)).drop_first() =~= split_lines(joined(rest)));
        }
        lemma_split_joined_back(rest);
        assert forall|i: int| 0 <= i < lines.len() - 1 implies without_return(#[trigger] lines[i])
            == lines[i] by {
            if i > 0 {
                assert(lines[i] == rest[i - 1]);
            }
        }
    }
}

/// A text that is put together and taken apart again is the same text exactly where its lines
/// can be told apart.
pub proof fn law_lines_come_back(lines: Seq<Seq<char>>)
    ensures
        loaded_lines(joined(lines)) == lines <==> storable(lines),
{
    if storable(lines) {
        if lines.last().len() > 0 {
            lemma_split_joined(lines);
        } else {
            lemma_split_single(lines[0]);
            assert(lines[0] =~= seq![]);
            assert(loaded_lines(joined(lines)) =~= lines);
        }
    }
    if loaded_lines(joined(lines)) == lines {
        if split_lines(joined(lines)).len() == 0 {
            assert(lines[0].len() == 0);
        } else {
            lemma_split_joined_back(lines);
        }
    }
}

/// What is saved can be loaded, and shows the same lines, with the cursor at the top.
pub proof fn law_saved_text_loads(editor: EditorView, later: EditorView)
    requires
        storable(editor.document.lines),
    ensures
        saved_text(
            joined(editor.document.lines),
            json_error(joined(editor.document.lines)),
        ) matches Ok(content) ==> {
            let (loaded, outcome) = later.load(content, json_error(content));
            &&& outcome is Ok
            &&& loaded.document.lines == editor.document.lines
            &&& loaded.document.cursor_row == 0
            &&& loaded.document.cursor_col == 0
            &&& !loaded.modified
        },
{
    law_lines_come_back(editor.document.lines);
}

/// A loaded text has at least one line, and no line holds a line feed.
pub proof fn law_loaded_lines(content: Seq<char>)
    ensures
        loaded_lines(content).len() > 0,
        forall|i: int|
            0 <= i < loaded_lines(content).len() ==> !(#[trigger] loaded_lines(
                content,
            )[i]).contains('\n'),
{
    lemma_split_has_no_breaks(content);
}

/// A text that is not JSON is not loaded, and leaves everything as it was.
pub proof fn law_refused_text_changes_nothing(
    editor: EditorView,
    content: Seq<char>,
    error: Seq<char>,
)
    ensures
        editor.load(content, Some(error)).0 == editor,
        editor.load(content, Some(error)).1 is Err,
{
}

/// A list from the net that fails to load, at whatever step, leaves everything as it was at that
/// step.
pub proof fn law_failed_load_changes_nothing(
    editor: EditorView,
    url: Seq<char>,
    event: LoadEvent,
    said: Option<Seq<char>>,
)
    ensures
        editor.load_from_url(url, event, said).1 is Failed ==> editor.load_from_url(
            url,
            event,
            said,
        ).0 == editor,
{
}

} // verus!
