//! What holds of taking rows out of a list.

use vstd::prelude::*;

use crate::model::{Document, EditorView};
use crate::rows::{
    duplicate_rows, is_duplicate, is_repeat, kept, lemma_below_bounds, repeat_rows, rows_below,
    same_url, without_rows,
};
use crate::url::url_of;

verus! {

// ---------------------------------------------------------------------------------------
// Taking rows out
// ---------------------------------------------------------------------------------------

/// How many rows are left from `from` on.
pub proof fn lemma_kept_len(lines: Seq<Seq<char>>, rows: Set<usize>, from: int)
    requires
        0 <= from <= lines.len() <= usize::MAX,
    ensures
        kept(lines, rows, from).len() == (lines.len() - from) - (rows_below(
            rows,
            lines.len() as int,
        ) - rows_below(rows, from)),
    decreases lines.len() - from,
{
    if from < lines.len() {
        lemma_kept_len(lines, rows, from + 1);
    }
}

proof fn lemma_kept_at(lines: Seq<Seq<char>>, rows: Set<usize>, from: int, i: int)
    requires
        0 <= from <= i < lines.len() <= usize::MAX,
        !rows.contains(i as usize),
    ensures
        ({
            let at = (i - from) - (rows_below(rows, i) - rows_below(rows, from));
            0 <= at < kept(lines, rows, from).len() && kept(lines, rows, from)[at] == lines[i]
        }),
    decreases i - from,
{
    if from < i {
        lemma_kept_at(lines, rows, from + 1, i);
    }
}

proof fn lemma_kept_pair(lines: Seq<Seq<char>>, rows: Set<usize>, from: int, p: int, q: int)
    requires
        0 <= from <= lines.len() <= usize::MAX,
        0 <= p < q < kept(lines, rows, from).len(),
    ensures
        exists|a: int, b: int|
            from <= a < b < lines.len() && !rows.contains(b as usize) && kept(lines, rows, from)[p]
                == #[trigger] lines[a] && kept(lines, rows, from)[q] == #[trigger] lines[b],
    decreases lines.len() - from,
{
    if rows.contains(from as usize) {
        lemma_kept_pair(lines, rows, from + 1, p, q);
    } else if p > 0 {
        lemma_kept_pair(lines, rows, from + 1, p - 1, q - 1);
    } else {
        lemma_kept_one(lines, rows, from + 1, q - 1);
        let b = choose|b: int|
            from + 1 <= b < lines.len() && !rows.contains(b as usize) && kept(lines, rows, from + 1)[
            q - 1] == #[trigger] lines[b];
        assert(kept(lines, rows, from)[p] == lines[from]);
        assert(kept(lines, rows, from)[q] == lines[b]);
    }
}

proof fn lemma_kept_one(lines: Seq<Seq<char>>, rows: Set<usize>, from: int, q: int)
    requires
        0 <= from <= lines.len() <= usize::MAX,
        0 <= q < kept(lines, rows, from).len(),
    ensures
        exists|b: int|
            from <= b < lines.len() && !rows.contains(b as usize) && kept(lines, rows, from)[q]
                == #[trigger] lines[b],
    decreases lines.len() - from,
{
    if rows.contains(from as usize) {
        lemma_kept_one(lines, rows, from + 1, q);
    } else if q > 0 {
        lemma_kept_one(lines, rows, from + 1, q - 1);
    } else {
        assert(kept(lines, rows, from)[q] == lines[from]);
    }
}

/// Taking rows out leaves as many lines as there are other rows.
pub proof fn law_removal_counts(lines: Seq<Seq<char>>, rows: Set<usize>)
    requires
        lines.len() <= usize::MAX,
    ensures
        without_rows(lines, rows).len() == lines.len() - rows_below(rows, lines.len() as int),
{
    lemma_kept_len(lines, rows, 0);
}

/// A row that is not taken out stays, and moves up by the number of rows taken out above it.
pub proof fn law_removal_keeps_others(lines: Seq<Seq<char>>, rows: Set<usize>, i: int)
    requires
        0 <= i < lines.len() <= usize::MAX,
        !rows.contains(i as usize),
    ensures
        0 <= i - rows_below(rows, i) < without_rows(lines, rows).len(),
        without_rows(lines, rows)[i - rows_below(rows, i)] == lines[i],
{
    lemma_kept_at(lines, rows, 0, i);
}

/// A cursor on a row that stays is still on that line once rows are taken out.
pub proof fn law_cursor_stays_with_its_line(document: Document, rows: Set<usize>)
    requires
        document.on_line(),
        document.lines.len() <= usize::MAX,
        !rows.contains(document.cursor_row as usize),
    ensures
        document.remove_rows(rows).on_line(),
        document.remove_rows(rows).line() == document.line(),
{
    lemma_kept_at(document.lines, rows, 0, document.cursor_row);
}

// ---------------------------------------------------------------------------------------
// Repeated addresses
// ---------------------------------------------------------------------------------------

/// A row marked as a duplicate has a partner: another row with the same address, marked too.
pub proof fn law_duplicates_have_partners(lines: Seq<Seq<char>>, i: usize)
    requires
        lines.len() <= usize::MAX,
        duplicate_rows(lines).contains(i),
    ensures
        exists|j: usize|
            j != i && #[trigger] duplicate_rows(lines).contains(j) && same_url(
                lines,
                i as int,
                j as int,
            ),
{
    let j = choose|j: int|
        0 <= j < lines.len() && j != i && #[trigger] same_url(lines, i as int, j);
    assert(same_url(lines, j, i as int));
    assert(duplicate_rows(lines).contains(j as usize));
}

/// Once the repeated rows are taken out, no address is there twice.
pub proof fn law_no_duplicates_left(lines: Seq<Seq<char>>)
    requires
        lines.len() <= usize::MAX,
    ensures
        duplicate_rows(without_rows(lines, repeat_rows(lines))) == Set::<usize>::empty(),
        repeat_rows(without_rows(lines, repeat_rows(lines))) == Set::<usize>::empty(),
{
    let rows = repeat_rows(lines);
    let left = without_rows(lines, rows);
    assert forall|p: int, q: int| 0 <= p < q < left.len() implies !same_url(left, p, q)
        && !same_url(left, q, p) by {
        lemma_kept_pair(lines, rows, 0, p, q);
        let (a, b) = choose|a: int, b: int|
            0 <= a < b < lines.len() && !rows.contains(b as usize) && left[p] == #[trigger] lines[a]
                && left[q] == #[trigger] lines[b];
        if same_url(left, p, q) || same_url(left, q, p) {
            assert(same_url(lines, b, a));
            assert(is_repeat(lines, b));
            assert(rows.contains(b as usize));
        }
    }
    assert forall|i: usize| !duplicate_rows(left).contains(i) by {
        if is_duplicate(left, i as int) {
            let j = choose|j: int|
                0 <= j < left.len() && j != i && #[trigger] same_url(left, i as int, j);
            if i < j {
                assert(!same_url(left, i as int, j));
            } else {
                assert(!same_url(left, i as int, j));
            }
        }
    }
    assert forall|i: usize| !repeat_rows(left).contains(i) by {
        if is_repeat(left, i as int) {
            let j = choose|j: int| 0 <= j < i && #[trigger] same_url(left, i as int, j);
            assert(!same_url(left, i as int, j));
        }
    }
    assert(duplicate_rows(left) =~= Set::<usize>::empty());
    assert(repeat_rows(left) =~= Set::<usize>::empty());
}

/// The first row with the address of row `i`.
proof fn lemma_first_row(lines: Seq<Seq<char>>, i: int) -> (first: int)
    requires
        0 <= i < lines.len(),
        url_of(lines[i]) is Some,
    ensures
        0 <= first <= i,
        url_of(lines[first]) == url_of(lines[i]),
        !is_repeat(lines, first),
    decreases i,
{
    if is_repeat(lines, i) {
        let j = choose|j: int| 0 <= j < i && #[trigger] same_url(lines, i, j);
        lemma_first_row(lines, j)
    } else {
        i
    }
}

/// Taking out the repeated rows loses no address.
pub proof fn law_no_address_lost(lines: Seq<Seq<char>>, i: int)
    requires
        0 <= i < lines.len() <= usize::MAX,
        url_of(lines[i]) is Some,
    ensures
        ({
            let left = without_rows(lines, repeat_rows(lines));
            exists|p: int| 0 <= p < left.len() && url_of(#[trigger] left[p]) == url_of(lines[i])
        }),
{
    let rows = repeat_rows(lines);
    let first = lemma_first_row(lines, i);
    law_removal_keeps_others(lines, rows, first);
    let p = first - rows_below(rows, first);
    assert(url_of(without_rows(lines, rows)[p]) == url_of(lines[i]));
}

proof fn lemma_nothing_removed(lines: Seq<Seq<char>>, from: int)
    requires
        0 <= from <= lines.len(),
    ensures
        kept(lines, Set::empty(), from) == lines.skip(from),
        rows_below(Set::empty(), from) == 0,
    decreases lines.len() - from,
{
    if from < lines.len() {
        lemma_nothing_removed(lines, from + 1);
        assert(lines.skip(from) =~= seq![lines[from]] + lines.skip(from + 1));
    } else {
        lemma_none_below(from);
    }
}

proof fn lemma_none_below(k: int)
    ensures
        rows_below(Set::empty(), k) == 0,
    decreases k,
{
    if k > 0 {
        lemma_none_below(k - 1);
    }
}

/// Removing duplicates a second time removes nothing and marks nothing.
pub proof fn law_remove_duplicates_once(editor: EditorView)
    requires
        editor.document.lines.len() <= usize::MAX,
        editor.document.cursor_row >= 0,
    ensures
        editor.remove_duplicates().duplicates == Set::<usize>::empty(),
        editor.remove_duplicates().remove_duplicates().document
            == editor.remove_duplicates().document,
{
    let once = editor.remove_duplicates();
    law_no_duplicates_left(editor.document.lines);
    lemma_nothing_removed(once.document.lines, 0);
    assert(once.document.lines.skip(0) =~= once.document.lines);
    let k = if once.document.cursor_row < once.document.lines.len() {
        once.document.cursor_row + 1
    } else {
        once.document.lines.len() as int
    };
    lemma_none_below(k);
    lemma_below_bounds(
        repeat_rows(editor.document.lines),
        0,
        editor.document.lines.len() as int,
    );
}

/// Removing the missing rows removes these rows and no others, and leaves none marked.
pub proof fn law_missing_rows_go(editor: EditorView)
    requires
        editor.missing_emotes.len() > 0,
    ensures
        editor.remove_missing_emotes().missing_emotes == Set::<usize>::empty(),
        editor.remove_missing_emotes().document.lines == without_rows(
            editor.document.lines,
            editor.missing_emotes,
        ),
{
}

proof fn lemma_kept_push(lines: Seq<Seq<char>>, line: Seq<char>, rows: Set<usize>, from: int)
    requires
        0 <= from <= lines.len(),
    ensures
        kept(lines.push(line), rows, from) == (if rows.contains(lines.len() as usize) {
            kept(lines, rows, from)
        } else {
            kept(lines, rows, from).push(line)
        }),
    decreases lines.len() - from,
{
    let longer = lines.push(line);
    if from < lines.len() {
        lemma_kept_push(lines, line, rows, from + 1);
        assert(longer[from] == lines[from]);
        assert(kept(longer, rows, from) =~= (if rows.contains(lines.len() as usize) {
            kept(lines, rows, from)
        } else {
            kept(lines, rows, from).push(line)
        }));
    } else {
        assert(kept(longer, rows, from + 1) =~= seq![]);
        assert(kept(longer, rows, from) =~= (if rows.contains(lines.len() as usize) {
            kept(lines, rows, from)
        } else {
            kept(lines, rows, from).push(line)
        }));
    }
}

/// One more line at the end stays at the end, or goes where its row is taken out; the others are
/// as without it. Of no lines, none are left.
pub proof fn law_removal_row_by_row(lines: Seq<Seq<char>>, line: Seq<char>, rows: Set<usize>)
    requires
        lines.len() < usize::MAX,
    ensures
        rows.contains(lines.len() as usize) ==> without_rows(lines.push(line), rows)
            == without_rows(lines, rows),
        !rows.contains(lines.len() as usize) ==> without_rows(lines.push(line), rows)
            == without_rows(lines, rows).push(line),
        without_rows(seq![], rows) == Seq::<Seq<char>>::empty(),
{
    lemma_kept_push(lines, line, rows, 0);
}

/// The rows below a row are counted one by one.
pub proof fn law_rows_below_are_counted(rows: Set<usize>, k: int)
    requires
        0 <= k <= usize::MAX,
    ensures
        Set::new(|r: usize| rows.contains(r) && r < k).finite(),
        rows_below(rows, k) == Set::new(|r: usize| rows.contains(r) && r < k).len(),
    decreases k,
{
    let below = Set::new(|r: usize| rows.contains(r) && r < k);
    if k == 0 {
        assert(below =~= Set::<usize>::empty());
    } else {
        let last = (k - 1) as usize;
        let fewer = Set::new(|r: usize| rows.contains(r) && r < k - 1);
        law_rows_below_are_counted(rows, k - 1);
        if rows.contains(last) {
            assert(below =~= fewer.insert(last));
        } else {
            assert(below =~= fewer);
        }
    }
}

/// Once rows are taken out, the cursor stands on the last line left of those down to its row, or
/// at the top where none of them is left. Its column stays.
pub proof fn law_cursor_after_removal(document: Document, rows: Set<usize>)
    requires
        document.cursor_row >= 0,
        document.lines.len() <= usize::MAX,
    ensures
        document.remove_rows(rows).lines == without_rows(document.lines, rows),
        document.remove_rows(rows).cursor_col == document.cursor_col,
        document.cursor_row < document.lines.len() ==> ({
            let above = without_rows(document.lines.take(document.cursor_row + 1), rows);
            document.remove_rows(rows).cursor_row == (if above.len() > 0 {
                above.len() - 1
            } else {
                0
            })
        }),
        document.cursor_row >= document.lines.len() ==> document.remove_rows(rows).cursor_row
            == document.cursor_row - (document.lines.len() - without_rows(
            document.lines,
            rows,
        ).len()),
{
    let n = document.lines.len() as int;
    let c = document.cursor_row;
    law_removal_counts(document.lines, rows);
    lemma_below_bounds(rows, 0, n);
    if c < n {
        law_removal_counts(document.lines.take(c + 1), rows);
        lemma_below_bounds(rows, 0, c + 1);
    }
}

/// What is left is exactly the lines of the rows that are not taken out, in their order: where
/// `others` are these rows from the top down, the line at place `p` is that of row `others[p]`.
pub proof fn law_removal_leaves_the_others(
    lines: Seq<Seq<char>>,
    rows: Set<usize>,
    others: Seq<int>,
)
    requires
        lines.len() <= usize::MAX,
        forall|p: int, q: int| 0 <= p < q < others.len() ==> others[p] < others[q],
        forall|i: int| #[trigger]
            others.contains(i) <==> 0 <= i < lines.len() && !rows.contains(i as usize),
    ensures
        without_rows(lines, rows).len() == others.len(),
        forall|p: int|
            0 <= p < others.len() ==> #[trigger] without_rows(lines, rows)[p] == lines[others[p]],
    decreases lines.len(),
{
    if lines.len() == 0 {
        if others.len() > 0 {
            assert(others.contains(others[0]));
        }
    } else {
        let last = lines.len() - 1;
        let fewer = lines.drop_last();
        assert(fewer.push(lines.last()) =~= lines);
        law_removal_row_by_row(fewer, lines.last(), rows);
        if rows.contains(last as usize) {
            law_removal_leaves_the_others(fewer, rows, others);
            assert forall|p: int| 0 <= p < others.len() implies #[trigger] without_rows(
                lines,
                rows,
            )[p] == lines[others[p]] by {
                assert(without_rows(fewer, rows)[p] == fewer[others[p]]);
                assert(others.contains(others[p]));
            }
        } else {
            let less = others.drop_last();
            assert(others.contains(last));
            let at = choose|p: int| 0 <= p < others.len() && others[p] == last;
            if at < others.len() - 1 {
                assert(others[at] < others[others.len() - 1]);
                assert(others.contains(others[others.len() - 1]));
            }
            assert(others.last() == last);
            assert forall|i: int| #[trigger] less.contains(i) <==> 0 <= i < fewer.len()
                && !rows.contains(i as usize) by {
                if less.contains(i) {
                    let p = choose|p: int| 0 <= p < less.len() && less[p] == i;
                    assert(others[p] == i);
                    assert(others.contains(i));
                    assert(others[p] < others[others.len() - 1]);
                }
                if 0 <= i < fewer.len() && !rows.contains(i as usize) {
                    assert(others.contains(i));
                    let p = choose|p: int| 0 <= p < others.len() && others[p] == i;
                    assert(less[p] == i);
                }
            }
            law_removal_leaves_the_others(fewer, rows, less);
            assert forall|p: int| 0 <= p < others.len() implies #[trigger] without_rows(
                lines,
                rows,
            )[p] == lines[others[p]] by {
                if p < less.len() {
                    assert(without_rows(fewer, rows)[p] == fewer[less[p]]);
                    assert(less.contains(less[p]));
                }
            }
        }
    }
}

} // verus!
