//! What holds of a check of the addresses.

use vstd::prelude::*;

use crate::check::{count_good, get_verdict, head_verdict, url_rows, CheckEvent, CheckView};
use crate::http::success;
use crate::model::EditorView;
use crate::url::url_of;

verus! {

/// Whether the targets are different rows, from the top down.
pub open spec fn rows_ascend(targets: Seq<(usize, Seq<char>)>) -> bool {
    forall|a: int, b: int| 0 <= a < b < targets.len() ==> targets[a].0 < targets[b].0
}

/// Whether what the editor has marked as missing fits the check: it is among the targets that
/// have been asked for, and each of these is either good or missing.
pub open spec fn tallies(editor: EditorView, check: CheckView) -> bool {
    &&& check.valid()
    &&& rows_ascend(check.targets)
    &&& editor.missing_emotes.finite()
    &&& forall|row: usize| #[trigger]
        editor.missing_emotes.contains(row) ==> exists|k: int|
            0 <= k < check.completed && #[trigger] check.targets[k].0 == row
    &&& check.good + editor.missing_emotes.len() == check.completed
}

pub(crate) proof fn lemma_url_rows(lines: Seq<Seq<char>>)
    requires
        lines.len() <= usize::MAX,
    ensures
        rows_ascend(url_rows(lines)),
        forall|k: int|
            0 <= k < url_rows(lines).len() ==> (#[trigger] url_rows(lines)[k]).0 < lines.len()
                && url_of(lines[url_rows(lines)[k].0 as int]) == Some(url_rows(lines)[k].1),
        forall|i: int|
            0 <= i < lines.len() ==> (#[trigger] url_of(lines[i]) matches Some(url) ==> url_rows(
                lines,
            ).contains((i as usize, url))),
    decreases lines.len(),
{
    if lines.len() > 0 {
        let rest = lines.drop_last();
        lemma_url_rows(rest);
        let done = url_rows(rest);
        let all = url_rows(lines);
        assert forall|k: int| 0 <= k < all.len() implies (#[trigger] all[k]).0 < lines.len()
            && url_of(lines[all[k].0 as int]) == Some(all[k].1) by {
            if k < done.len() {
                assert(all[k] == done[k]);
                assert(rest[done[k].0 as int] == lines[done[k].0 as int]);
            }
        }
        assert forall|i: int| 0 <= i < lines.len() implies (#[trigger] url_of(
            lines[i],
        ) matches Some(url) ==> all.contains((i as usize, url))) by {
            match url_of(lines[i]) {
                Some(url) => {
                    if i < rest.len() {
                        assert(url_of(rest[i]) == Some(url));
                        let k = choose|k: int|
                            0 <= k < done.len() && done[k] == (i as usize, url);
                        assert(all[k] == (i as usize, url));
                    } else {
                        assert(all.last() == (i as usize, url));
                    }
                },
                None => {},
            }
        }
    }
}

/// The targets of a check are the rows with an address, each once, with the address.
pub proof fn law_targets_are_the_addresses(lines: Seq<Seq<char>>, row: usize, url: Seq<char>)
    requires
        lines.len() <= usize::MAX,
    ensures
        forall|a: int, b: int|
            0 <= a < b < url_rows(lines).len() ==> (#[trigger] url_rows(lines)[a]).0 < (
            #[trigger] url_rows(lines)[b]).0,
        url_rows(lines).contains((row, url)) <==> row < lines.len() && url_of(lines[row as int])
            == Some(url),
{
    lemma_url_rows(lines);
}

/// Once a check has collected its targets, nothing is good and nothing is missing.
pub proof fn law_check_starts_even(editor: EditorView, before: CheckView, ready: CheckEvent)
    requires
        editor.document.lines.len() <= usize::MAX,
        ready matches CheckEvent::Client(Ok(_)),
    ensures
        ({
            let (wanted, still, _) = editor.check_step(before, CheckEvent::Wanted);
            let (started, check, _) = wanted.check_step(still, ready);
            tallies(started, check) && check.completed == 0
        }),
{
    lemma_url_rows(editor.document.lines);
}

proof fn lemma_flagged(check: CheckView, missing: Seq<bool>)
    requires
        check.valid(),
        check.completed + missing.len() <= check.total(),
        rows_ascend(check.targets),
    ensures
        check.flagged(missing).finite(),
        check.flagged(missing).len() + count_good(missing) == missing.len(),
        0 <= count_good(missing) <= missing.len(),
    decreases missing.len(),
{
    if missing.len() == 0 {
        assert(check.flagged(missing) =~= Set::<usize>::empty());
    } else {
        let done = missing.drop_last();
        let last = missing.len() - 1;
        let row = check.targets[check.completed + last].0;
        lemma_flagged(check, done);
        assert forall|r: usize| #[trigger]
            check.flagged(missing).contains(r) <==> check.flagged(done).contains(r) || (
            missing.last() && r == row) by {
            if check.flagged(done).contains(r) {
                let k = choose|k: int|
                    0 <= k < done.len() && done[k] && #[trigger] check.targets[check.completed
                        + k].0 == r;
                assert(missing[k] && check.targets[check.completed + k].0 == r);
            }
            if missing.last() && r == row {
                assert(missing[last] && check.targets[check.completed + last].0 == r);
            }
            if check.flagged(missing).contains(r) && r != row {
                let k = choose|k: int|
                    0 <= k < missing.len() && missing[k] && #[trigger] check.targets[check.completed
                        + k].0 == r;
                assert(done[k] && check.targets[check.completed + k].0 == r);
            }
            if check.flagged(missing).contains(r) && !missing.last() {
                let k = choose|k: int|
                    0 <= k < missing.len() && missing[k] && #[trigger] check.targets[check.completed
                        + k].0 == r;
                assert(done[k] && check.targets[check.completed + k].0 == r);
            }
        }
        if missing.last() {
            assert(!check.flagged(done).contains(row)) by {
                if check.flagged(done).contains(row) {
                    let k = choose|k: int|
                        0 <= k < done.len() && done[k] && #[trigger] check.targets[check.completed
                            + k].0 == row;
                    assert(check.targets[check.completed + k].0 < check.targets[check.completed
                        + last].0);
                }
            }
            assert(check.flagged(missing) =~= check.flagged(done).insert(row));
        } else {
            assert(check.flagged(missing) =~= check.flagged(done));
        }
    }
}

/// At every further step, each address that has been asked for counts as good or as missing, and
/// none as both.
pub proof fn law_steps_keep_the_tally(editor: EditorView, check: CheckView, event: CheckEvent)
    requires
        tallies(editor, check),
        event is Tried || event is Asked || event is Ended,
        event matches CheckEvent::Asked(missing, _) ==> check.completed + missing.len()
            <= check.total(),
    ensures
        tallies(editor.check_step(check, event).0, editor.check_step(check, event).1),
{
    if let CheckEvent::Asked(missing, elapsed) = event {
        lemma_chunk_keeps_the_tally(editor, check, missing@, elapsed@);
    }
}

pub(crate) proof fn lemma_chunk_keeps_the_tally(
    editor: EditorView,
    check: CheckView,
    missing: Seq<bool>,
    elapsed: Seq<char>,
)
    requires
        tallies(editor, check),
        check.completed + missing.len() <= check.total(),
    ensures
        tallies(editor.chunk_done(check, missing, elapsed), check.record(missing)),
{
    let flagged = check.flagged(missing);
    let after = editor.chunk_done(check, missing, elapsed);
    let recorded = check.record(missing);
    lemma_flagged(check, missing);
    assert(editor.missing_emotes.disjoint(flagged)) by {
        assert forall|row: usize| editor.missing_emotes.contains(row) implies !flagged.contains(
            row,
        ) by {
            let j = choose|j: int| 0 <= j < check.completed && #[trigger] check.targets[j].0 == row;
            if flagged.contains(row) {
                let k = choose|k: int|
                    0 <= k < missing.len() && missing[k] && #[trigger] check.targets[check.completed
                        + k].0 == row;
                assert(check.targets[j].0 < check.targets[check.completed + k].0);
            }
        }
    }
    vstd::set_lib::lemma_set_disjoint_lens(editor.missing_emotes, flagged);
    assert(editor.missing_emotes + flagged =~= after.missing_emotes);
    assert forall|row: usize| #[trigger] after.missing_emotes.contains(row) implies exists|k: int|
        0 <= k < recorded.completed && #[trigger] recorded.targets[k].0 == row by {
        if editor.missing_emotes.contains(row) {
            let j = choose|j: int| 0 <= j < check.completed && #[trigger] check.targets[j].0 == row;
            assert(recorded.targets[j].0 == row);
        } else {
            let k = choose|k: int|
                0 <= k < missing.len() && missing[k] && #[trigger] check.targets[check.completed
                    + k].0 == row;
            assert(recorded.targets[check.completed + k].0 == row);
        }
    }
}

/// Once every target has been asked for, the good and the missing ones make up all of them.
pub proof fn law_check_ends_even(editor: EditorView, check: CheckView)
    requires
        tallies(editor, check),
        check.completed == check.total(),
    ensures
        check.good + editor.missing_emotes.len() == check.total(),
        editor.missing_emotes.len() == 0 ==> check.good == check.total(),
{
}

/// As long as a check is not done, its next chunk is not empty and goes no further than the
/// targets.
pub proof fn law_chunks_make_progress(check: CheckView)
    requires
        check.valid(),
        check.completed < check.total(),
    ensures
        check.completed < check.chunk_end() <= check.total(),
{
}

/// A check changes neither the text nor what can be undone or redone.
pub proof fn law_check_leaves_the_text(editor: EditorView, check: CheckView, event: CheckEvent)
    ensures
        editor.check_step(check, event).0.document == editor.document,
        editor.check_step(check, event).0.modified == editor.modified,
        editor.check_step(check, event).0.undo_stack == editor.undo_stack,
        editor.check_step(check, event).0.redo_stack == editor.redo_stack,
{
}

/// While a check goes on the editor says that it is checking, and once it is over it does not.
pub proof fn law_checking_is_shown(editor: EditorView, check: CheckView, event: CheckEvent)
    requires
        editor.checking_urls || event is Wanted,
    ensures
        editor.check_step(check, event).0.checking_urls <==> !(editor.check_step(
            check,
            event,
        ).2 is Done),
{
}

/// An address counts as missing unless the last answer for it was a success.
pub proof fn law_missing_unless_success(head: Result<u16, String>, get: Option<u16>)
    ensures
        head_verdict(head) matches Some((missing, _)) ==> missing == !(head matches Ok(code)
            && success(code)),
        head_verdict(head) is None ==> (head matches Ok(code) && get_verdict(code, get).0 == !(
        get matches Some(answer) && success(answer))),
{
}

} // verus!
