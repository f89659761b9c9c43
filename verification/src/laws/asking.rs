//! How a check goes, step by step and as a whole.

use vstd::prelude::*;

use crate::check::{
    count_good, get_verdict, head_verdict, url_rows, CheckEvent, CheckStepView, CheckView,
};
use crate::http::canonical_reason;
use crate::laws::checking::{lemma_chunk_keeps_the_tally, lemma_url_rows, tallies};
use crate::model::EditorView;
use crate::text::decimal;

verus! {

// ---------------------------------------------------------------------------------------
// One step
// ---------------------------------------------------------------------------------------

/// A check that is wanted forgets what was missing, says that it is under way, and needs a client.
pub proof fn law_wanted(editor: EditorView, check: CheckView)
    ensures
        editor.check_step(check, CheckEvent::Wanted) == (
            EditorView { checking_urls: true, missing_emotes: Set::empty(), ..editor },
            check,
            CheckStepView::MakeClient,
        ),
{
}

/// Without a client a check fails, says why, and leaves the editor alone.
pub proof fn law_no_client(editor: EditorView, check: CheckView, event: CheckEvent, error: String)
    requires
        event == CheckEvent::Client(Err(error)),
    ensures
        editor.check_step(check, event) == (
            editor,
            check,
            CheckStepView::Failed("failed to create client: "@ + error@),
        ),
{
}

/// With a client, a check takes all the addresses of the text for its targets, and tries the
/// first. Where there is none, it is over.
pub proof fn law_client(editor: EditorView, check: CheckView, event: CheckEvent)
    requires
        event matches CheckEvent::Client(Ok(_)),
    ensures
        ({
            let targets = url_rows(editor.document.lines);
            let fresh = CheckView { targets, completed: 0, good: 0 };
            &&& targets.len() == 0 ==> editor.check_step(check, event) == (
                EditorView {
                    checking_urls: false,
                    check_progress: (0, 0),
                    status_message: "no urls found to check"@,
                    ..editor
                },
                fresh,
                CheckStepView::Done,
            )
            &&& targets.len() > 0 ==> editor.check_step(check, event) == (
                EditorView {
                    check_progress: (0, targets.len() as int),
                    status_message: "testing connection to "@ + targets[0].1 + "..."@,
                    ..editor
                },
                fresh,
                CheckStepView::Try(targets[0].1),
            )
        }),
{
}

/// A check is over at once exactly where no line of the text has an address.
pub proof fn law_nothing_to_check(editor: EditorView, check: CheckView, event: CheckEvent)
    requires
        event matches CheckEvent::Client(Ok(_)),
        editor.document.lines.len() <= usize::MAX,
    ensures
        editor.check_step(check, event).2 is Done <==> forall|i: int|
            0 <= i < editor.document.lines.len() ==> crate::url::url_of(
                #[trigger] editor.document.lines[i],
            ) is None,
{
    let lines = editor.document.lines;
    lemma_url_rows(lines);
    if url_rows(lines).len() == 0 {
        assert forall|i: int| 0 <= i < lines.len() implies crate::url::url_of(
            #[trigger] lines[i],
        ) is None by {
            if let Some(url) = crate::url::url_of(lines[i]) {
                assert(url_rows(lines).contains((i as usize, url)));
            }
        }
    } else {
        let first = url_rows(lines)[0];
        assert(crate::url::url_of(lines[first.0 as int]) == Some(first.1));
    }
}

/// What is said once the first address has been tried. Nothing else changes, whatever the answer.
pub proof fn law_tried(editor: EditorView, check: CheckView, event: CheckEvent)
    requires
        event is Tried,
    ensures
        editor.check_step(check, event).1 == check,
        editor.check_step(check, event).0 == (EditorView {
            status_message: match event {
                CheckEvent::Tried(Err(error)) => "test failed: "@ + error@,
                CheckEvent::Tried(Ok(code)) => match canonical_reason(code) {
                    Some(phrase) => "test response: "@ + (decimal(code as int) + " "@ + phrase)
                        + " - "@ + phrase,
                    None => "test response: "@ + (decimal(code as int) + " "@
                        + "<unknown status code>"@) + " - "@ + "Unknown"@,
                },
                _ => editor.status_message,
            },
            ..editor
        }),
{
}

/// Once targets have been asked for, the rows of those that are flagged are missing too, the
/// others count as good, and the progress is said. Nothing else changes.
pub proof fn law_asked(
    editor: EditorView,
    check: CheckView,
    event: CheckEvent,
    flags: Vec<bool>,
    elapsed: String,
)
    requires
        0 <= check.good <= check.completed <= check.targets.len(),
        event == CheckEvent::Asked(flags, elapsed),
        check.completed + flags@.len() <= check.targets.len(),
    ensures
        ({
            let (after, next, _) = editor.check_step(check, event);
            &&& next.targets == check.targets
            &&& next.completed == check.completed + flags@.len()
            &&& next.good == check.good + flags@.filter(|missing: bool| !missing).len()
            &&& forall|row: usize| #[trigger]
                after.missing_emotes.contains(row) <==> (editor.missing_emotes.contains(row)
                    || exists|k: int|
                    0 <= k < flags@.len() && #[trigger] flags@[k] && check.targets[check.completed
                        + k].0 == row)
            &&& after == (EditorView {
                missing_emotes: after.missing_emotes,
                check_progress: (next.completed, check.targets.len() as int),
                status_message: "checking urls... "@ + decimal(next.completed) + "/"@ + decimal(
                    check.targets.len() as int,
                ) + " ("@ + decimal(next.good) + " good, "@ + decimal(
                    after.missing_emotes.len() as int,
                ) + " missing, "@ + elapsed@ + "s)"@,
                ..editor
            })
        }),
{
    let (after, next, _) = editor.check_step(check, event);
    lemma_count_good(flags@);
    assert forall|row: usize| #[trigger]
        after.missing_emotes.contains(row) <==> (editor.missing_emotes.contains(row) || exists|
            k: int,
        |
            0 <= k < flags@.len() && #[trigger] flags@[k] && check.targets[check.completed + k].0
                == row) by {
        if check.flagged(flags@).contains(row) {
            let k = choose|k: int|
                0 <= k < flags@.len() && flags@[k] && #[trigger] check.targets[check.completed
                    + k].0 == row;
            assert(flags@[k]);
        }
        if exists|k: int|
            0 <= k < flags@.len() && #[trigger] flags@[k] && check.targets[check.completed + k].0
                == row {
            let k = choose|k: int|
                0 <= k < flags@.len() && #[trigger] flags@[k] && check.targets[check.completed
                    + k].0 == row;
            assert(check.targets[check.completed + k].0 == row);
            assert(check.flagged(flags@).contains(row));
        }
    }
}

proof fn lemma_count_good(flags: Seq<bool>)
    ensures
        count_good(flags) == flags.filter(|missing: bool| !missing).len(),
    decreases flags.len(),
{
    reveal(Seq::filter);
    if flags.len() > 0 {
        lemma_count_good(flags.drop_last());
    }
}

/// A check that has tried or asked asks for the next targets, as many as there are up to twenty,
/// and ends exactly where all have been asked for.
pub proof fn law_ask_on_or_end(editor: EditorView, check: CheckView, event: CheckEvent)
    requires
        0 <= check.good <= check.completed <= check.targets.len(),
        event is Tried || event is Asked,
        event matches CheckEvent::Asked(flags, _) ==> check.completed + flags@.len()
            <= check.targets.len(),
    ensures
        ({
            let (_, next, step) = editor.check_step(check, event);
            let left = next.targets.len() - next.completed;
            &&& next.targets == check.targets
            &&& step is End <==> next.completed == next.targets.len()
            &&& step !is End ==> (step matches CheckStepView::Ask(chunk) && chunk.len() == (if left
                < 20 {
                left
            } else {
                20
            }) && forall|k: int|
                0 <= k < chunk.len() ==> #[trigger] chunk[k] == next.targets[next.completed + k])
        }),
{
    if let CheckEvent::Asked(flags, _) = event {
        lemma_count_bounds(flags@);
    }
}

proof fn lemma_count_bounds(flags: Seq<bool>)
    ensures
        0 <= count_good(flags) <= flags.len(),
    decreases flags.len(),
{
    if flags.len() > 0 {
        lemma_count_bounds(flags.drop_last());
    }
}

/// What is said at the end. The check is no longer under way, and nothing else changes.
pub proof fn law_ended(editor: EditorView, check: CheckView, event: CheckEvent, elapsed: String)
    requires
        event == CheckEvent::Ended(elapsed),
    ensures
        ({
            let missing = editor.missing_emotes.len() as int;
            editor.check_step(check, event) == (
                EditorView {
                    checking_urls: false,
                    status_message: if missing == 0 {
                        "all "@ + decimal(check.targets.len() as int) + " emotes are real! ("@
                            + elapsed@ + "s)"@
                    } else {
                        "found "@ + decimal(check.good) + " good, "@ + decimal(missing)
                            + " missing/404 emotes in "@ + elapsed@
                            + "s. press f5 to remove missing ones."@
                    },
                    ..editor
                },
                check,
                CheckStepView::Done,
            )
        }),
{
}

/// A check is in order exactly where it has asked for no more targets than there are, and no more
/// of these are good.
pub proof fn law_checks_in_order(check: CheckView)
    ensures
        check.valid() <==> 0 <= check.good <= check.completed <= check.targets.len(),
        check.total() == check.targets.len(),
{
}

// ---------------------------------------------------------------------------------------
// One address
// ---------------------------------------------------------------------------------------

/// What the answer to a HEAD request means: a code from 200 to 299 that the address is there, the
/// code 405 that nothing is known yet, and any other that it is missing.
pub proof fn law_head_codes(code: u16)
    ensures
        200 <= code < 300 ==> head_verdict(Ok(code)) == Some((false, decimal(code as int))),
        code == 405 ==> head_verdict(Ok(code)) is None,
        !(200 <= code < 300) && code != 405 ==> head_verdict(Ok(code)) == Some(
            (true, decimal(code as int)),
        ),
{
}

/// A HEAD request without an answer means that the address is missing. Of why there was none, the
/// first twenty characters are told.
pub proof fn law_head_errors(error: String, start: Seq<char>, rest: Seq<char>)
    requires
        error@ == start + rest,
        start.len() == 20 || (start.len() < 20 && rest.len() == 0),
    ensures
        head_verdict(Err(error)) == Some((true, "ERROR: "@ + start)),
{
    assert(start.len() == 20 ==> error@.take(20) =~= start);
    assert(rest.len() == 0 ==> error@ =~= start);
}

/// What the answer to a GET request means: a code from 200 to 299 that the address is there, and
/// any other, or none, that it is missing.
pub proof fn law_get_codes(head: u16, code: u16)
    ensures
        get_verdict(head, Some(code)) == (
            !(200 <= code < 300),
            "HEAD:"@ + decimal(head as int) + ", GET:"@ + decimal(code as int),
        ),
        get_verdict(head, None) == (true, "HEAD:"@ + decimal(head as int) + ", GET:FAIL"@),
{
}

// ---------------------------------------------------------------------------------------
// All steps together
// ---------------------------------------------------------------------------------------

/// From the start of a check on: whatever is answered, the chunks that were asked for are, put
/// together, the addresses of the text from the first on; the check ends exactly where they are
/// all of them; and the rows marked as missing are exactly those whose answer was flagged.
///
/// `chunks[i]` is what is asked for at step `i`, `answers[i]` what comes back for it, and
/// `editors[i]`, `checks[i]` and `steps[i]` are how things stand before.
pub proof fn law_whole_check(
    start: EditorView,
    before: CheckView,
    ready: CheckEvent,
    tried: CheckEvent,
    editors: Seq<EditorView>,
    checks: Seq<CheckView>,
    steps: Seq<CheckStepView>,
    chunks: Seq<Seq<(usize, Seq<char>)>>,
    answers: Seq<CheckEvent>,
)
    requires
        start.document.lines.len() <= usize::MAX,
        ready matches CheckEvent::Client(Ok(_)),
        tried is Tried,
        editors.len() == chunks.len() + 1,
        checks.len() == chunks.len() + 1,
        steps.len() == chunks.len() + 1,
        answers.len() == chunks.len(),
        ({
            let (wanted, still, _) = start.check_step(before, CheckEvent::Wanted);
            let (collected, fresh, _) = wanted.check_step(still, ready);
            (editors[0], checks[0], steps[0]) == collected.check_step(fresh, tried)
        }),
        forall|i: int| #![trigger answers[i]]
            0 <= i < chunks.len() ==> {
                &&& steps[i] == CheckStepView::Ask(chunks[i])
                &&& answers[i] matches CheckEvent::Asked(flags, _)
                &&& flags@.len() == chunks[i].len()
                &&& (editors[i + 1], checks[i + 1], steps[i + 1]) == editors[i].check_step(
                    checks[i],
                    answers[i],
                )
            },
    ensures
        ({
            let all = url_rows(start.document.lines);
            let asked = chunks.flatten();
            let n = chunks.len() as int;
            let now = editors[n];
            &&& asked.is_prefix_of(all)
            &&& steps[n] is End <==> asked == all
            &&& steps[n] !is End ==> (steps[n] matches CheckStepView::Ask(chunk) && chunk.len() > 0
                && (asked + chunk).is_prefix_of(all))
            &&& forall|row: usize| #[trigger]
                now.missing_emotes.contains(row) <==> exists|i: int, k: int|
                    0 <= i < n && 0 <= k < chunks[i].len() && (#[trigger] chunks[i][k]).0 == row
                        && answers[i]->Asked_0@[k]
            &&& tallies(now, checks[n])
            &&& checks[n].targets == all
            &&& checks[n].completed == asked.len()
            &&& checks[n].good + now.missing_emotes.len() == asked.len()
            &&& now.document == start.document
        }),
    decreases chunks.len(),
{
    let all = url_rows(start.document.lines);
    let n = chunks.len() as int;
    lemma_url_rows(start.document.lines);
    if n == 0 {
        assert(chunks.flatten() =~= seq![]);
        assert(tallies(editors[0], checks[0]));
        assert(checks[0].targets == all);
        if steps[0] !is End {
            let chunk = checks[0].next_chunk();
            assert(seq![] + chunk =~= chunk);
            assert(chunks.flatten() + chunk =~= all.take(chunk.len() as int));
        } else {
            assert(chunks.flatten() =~= all);
        }
    } else {
        let m = n - 1;
        law_whole_check(
            start,
            before,
            ready,
            tried,
            editors.drop_last(),
            checks.drop_last(),
            steps.drop_last(),
            chunks.drop_last(),
            answers.drop_last(),
        );
        assert(answers[m] is Asked && steps[m] == CheckStepView::Ask(chunks[m]));
        assert(steps[m] == checks[m].next_step()) by {
            if m > 0 {
                assert(answers[m - 1] is Asked);
            }
        }
        lemma_one_more(
            all,
            editors[m],
            checks[m],
            chunks.drop_last(),
            chunks[m],
            answers.drop_last(),
            answers[m],
        );
        assert(chunks.drop_last().push(chunks[m]) =~= chunks);
        assert(answers.drop_last().push(answers[m]) =~= answers);
    }
}

#[verifier::spinoff_prover]
proof fn lemma_one_more(
    all: Seq<(usize, Seq<char>)>,
    editor: EditorView,
    check: CheckView,
    chunks: Seq<Seq<(usize, Seq<char>)>>,
    chunk: Seq<(usize, Seq<char>)>,
    answers: Seq<CheckEvent>,
    answer: CheckEvent,
)
    requires
        answers.len() == chunks.len(),
        chunks.flatten().is_prefix_of(all),
        check.targets == all,
        check.completed == chunks.flatten().len(),
        tallies(editor, check),
        forall|i: int| 0 <= i < chunks.len() ==> #[trigger] answers[i] is Asked,
        forall|row: usize| #[trigger]
            editor.missing_emotes.contains(row) <==> exists|i: int, k: int|
                0 <= i < chunks.len() && 0 <= k < chunks[i].len() && (#[trigger] chunks[i][k]).0
                    == row && answers[i]->Asked_0@[k],
        check.next_step() == CheckStepView::Ask(chunk),
        answer matches CheckEvent::Asked(flags, _) && flags@.len() == chunk.len(),
    ensures
        ({
            let (now, next, step) = editor.check_step(check, answer);
            let asked = chunks.push(chunk).flatten();
            &&& asked.is_prefix_of(all)
            &&& step is End <==> asked == all
            &&& step !is End ==> (step matches CheckStepView::Ask(c) && c.len() > 0 && (asked
                + c).is_prefix_of(all))
            &&& forall|row: usize| #[trigger]
                now.missing_emotes.contains(row) <==> exists|i: int, k: int|
                    0 <= i < chunks.push(chunk).len() && 0 <= k < chunks.push(chunk)[i].len() && (
                    #[trigger] chunks.push(chunk)[i][k]).0 == row && answers.push(
                        answer,
                    )[i]->Asked_0@[k]
            &&& tallies(now, next)
            &&& next.targets == all
            &&& next.completed == asked.len()
        }),
{
    let (now, next, step) = editor.check_step(check, answer);
    let flags = answer->Asked_0@;
    let asked = chunks.flatten();
    let more = chunks.push(chunk);
    let replies = answers.push(answer);
    chunks.lemma_flatten_push(chunk);
    lemma_chunk_keeps_the_tally(editor, check, flags, answer->Asked_1@);
    assert(more.flatten() =~= all.take(next.completed)) by {
        assert(asked =~= all.take(check.completed));
        assert(chunk =~= all.subrange(check.completed, next.completed));
    }
    if step is End {
        assert(all.take(next.completed) =~= all);
    } else {
        let coming = next.next_chunk();
        assert(more.flatten() + coming =~= all.take(next.completed + coming.len()));
    }
    assert forall|row: usize| #[trigger] now.missing_emotes.contains(row) implies exists|
        i: int,
        k: int,
    |
        0 <= i < more.len() && 0 <= k < more[i].len() && (#[trigger] more[i][k]).0 == row
            && replies[i]->Asked_0@[k] by {
        if editor.missing_emotes.contains(row) {
            let (i, k) = choose|i: int, k: int|
                0 <= i < chunks.len() && 0 <= k < chunks[i].len() && (#[trigger] chunks[i][k]).0
                    == row && answers[i]->Asked_0@[k];
            assert(more[i] == chunks[i] && replies[i] == answers[i]);
            assert(more[i][k].0 == row);
        } else {
            let k = choose|k: int|
                0 <= k < flags.len() && flags[k] && #[trigger] check.targets[check.completed
                    + k].0 == row;
            let i = chunks.len() as int;
            assert(more[i] == chunk && replies[i] == answer);
            assert(more[i][k].0 == row);
        }
    }
    assert forall|row: usize|
        (exists|i: int, k: int|
            0 <= i < more.len() && 0 <= k < more[i].len() && (#[trigger] more[i][k]).0 == row
                && replies[i]->Asked_0@[k]) implies #[trigger] now.missing_emotes.contains(
        row,
    ) by {
        let (i, k) = choose|i: int, k: int|
            0 <= i < more.len() && 0 <= k < more[i].len() && (#[trigger] more[i][k]).0 == row
                && replies[i]->Asked_0@[k];
        if i < chunks.len() {
            assert(more[i] == chunks[i] && replies[i] == answers[i]);
            assert(chunks[i][k].0 == row);
            assert(editor.missing_emotes.contains(row));
        } else {
            assert(more[i] == chunk && replies[i] == answer);
            assert(flags[k] && check.targets[check.completed + k].0 == row);
            assert(check.flagged(flags).contains(row));
        }
    }
}

} // verus!
