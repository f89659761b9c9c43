//! Rows of a list of lines: which of them repeat an address, and what is left when some are
//! taken out.

use std::collections::HashSet;
use vstd::hash_map::StringHashMap;
use vstd::hash_set::StringHashSet;
use vstd::prelude::*;

use crate::text::texts;
use crate::url::{extract_url, url_of};

verus! {

broadcast use vstd::std_specs::hash::group_hash_axioms;

/// Whether rows `i` and `j` hold the same address.
pub open spec fn same_url(lines: Seq<Seq<char>>, i: int, j: int) -> bool {
    &&& url_of(lines[i]) is Some
    &&& url_of(lines[i]) == url_of(lines[j])
}

/// Whether row `i` holds an address that another row holds too.
pub open spec fn is_duplicate(lines: Seq<Seq<char>>, i: int) -> bool {
    &&& 0 <= i < lines.len()
    &&& exists|j: int| 0 <= j < lines.len() && j != i && #[trigger] same_url(lines, i, j)
}

/// Whether row `i` holds an address that a row above it holds too.
pub open spec fn is_repeat(lines: Seq<Seq<char>>, i: int) -> bool {
    &&& 0 <= i < lines.len()
    &&& exists|j: int| 0 <= j < i && #[trigger] same_url(lines, i, j)
}

/// The rows whose address another row holds too.
pub open spec fn duplicate_rows(lines: Seq<Seq<char>>) -> Set<usize> {
    Set::new(|i: usize| is_duplicate(lines, i as int))
}

/// The rows whose address a row above holds too.
pub open spec fn repeat_rows(lines: Seq<Seq<char>>) -> Set<usize> {
    Set::new(|i: usize| is_repeat(lines, i as int))
}

/// The rows from `from` on that are not in `rows`, in their order.
pub open spec fn kept(lines: Seq<Seq<char>>, rows: Set<usize>, from: int) -> Seq<Seq<char>>
    decreases lines.len() - from,
{
    if from >= lines.len() {
        seq![]
    } else if rows.contains(from as usize) {
        kept(lines, rows, from + 1)
    } else {
        seq![lines[from]] + kept(lines, rows, from + 1)
    }
}

/// The lines without those in `rows`.
pub open spec fn without_rows(lines: Seq<Seq<char>>, rows: Set<usize>) -> Seq<Seq<char>> {
    kept(lines, rows, 0)
}

/// How many of the rows below `k` are in `rows`.
pub open spec fn rows_below(rows: Set<usize>, k: int) -> int
    decreases k,
{
    if k <= 0 {
        0
    } else if rows.contains((k - 1) as usize) {
        rows_below(rows, k - 1) + 1
    } else {
        rows_below(rows, k - 1)
    }
}

/// Where a cursor on row `cursor` of `n` lines stands once `rows` are taken out: it moves up
/// by one for each row taken out at or above it, though not past the first row.
pub open spec fn moved_up(cursor: int, rows: Set<usize>, n: int) -> int {
    let gone = rows_below(
        rows,
        if cursor < n {
            cursor + 1
        } else {
            n
        },
    );
    if cursor >= gone {
        cursor - gone
    } else {
        0
    }
}

// ---------------------------------------------------------------------------------------
// Finding repeated addresses
// ---------------------------------------------------------------------------------------

/// The rows whose address another row holds too.
pub fn find_duplicates(lines: &Vec<String>) -> (duplicates: HashSet<usize>)
    ensures
        duplicates@ == duplicate_rows(texts(lines@)),
{
    let mut duplicates: HashSet<usize> = HashSet::new();
    let mut seen: StringHashMap<usize> = StringHashMap::new();
    let ghost all = texts(lines@);
    let mut i: usize = 0;
    while i < lines.len()
        invariant
            i <= lines.len(),
            all == texts(lines@),
            forall|u: Seq<char>| #[trigger]
                seen@.contains_key(u) ==> seen@[u] < i && url_of(all[seen@[u] as int]) == Some(u),
            forall|j: int|
                0 <= j < i ==> (#[trigger] url_of(all[j]) matches Some(u) ==> seen@.contains_key(u)),
            forall|k: usize| #[trigger]
                duplicates@.contains(k) <==> k < i && exists|j: int|
                    0 <= j < i && j != k && #[trigger] same_url(all, k as int, j),
        decreases lines.len() - i,
    {
        assert(all[i as int] == lines@[i as int]@);
        let ghost before = duplicates@;
        match extract_url(lines[i].as_str()) {
            Some(url) => {
                let first: Option<usize> = match seen.get(url.as_str()) {
                    Some(row) => Some(*row),
                    None => None,
                };
                match first {
                    Some(row) => {
                        duplicates.insert(i);
                        duplicates.insert(row);
                        assert(same_url(all, i as int, row as int));
                        assert(same_url(all, row as int, i as int));
                        assert forall|k: usize| #[trigger]
                            duplicates@.contains(k) <==> k < i + 1 && exists|j: int|
                                0 <= j < i + 1 && j != k && #[trigger] same_url(
                                    all,
                                    k as int,
                                    j,
                                ) by {
                            if k < i + 1 && (exists|j: int|
                                0 <= j < i + 1 && j != k && #[trigger] same_url(all, k as int, j))
                                && k != i && k != row {
                                let j = choose|j: int|
                                    0 <= j < i + 1 && j != k && #[trigger] same_url(
                                        all,
                                        k as int,
                                        j,
                                    );
                                if j == i {
                                    assert(same_url(all, k as int, row as int));
                                }
                                assert(before.contains(k));
                            }
                            if before.contains(k) {
                                let j = choose|j: int|
                                    0 <= j < i && j != k && #[trigger] same_url(all, k as int, j);
                                assert(same_url(all, k as int, j));
                            }
                        }
                    },
                    None => {
                        let ghost u = url@;
                        seen.insert(url, i);
                        assert forall|k: usize| #[trigger]
                            duplicates@.contains(k) <==> k < i + 1 && exists|j: int|
                                0 <= j < i + 1 && j != k && #[trigger] same_url(
                                    all,
                                    k as int,
                                    j,
                                ) by {
                            if k < i + 1 && (exists|j: int|
                                0 <= j < i + 1 && j != k && #[trigger] same_url(all, k as int, j)) {
                                let j = choose|j: int|
                                    0 <= j < i + 1 && j != k && #[trigger] same_url(
                                        all,
                                        k as int,
                                        j,
                                    );
                                assert(url_of(all[j]) == url_of(all[k as int]));
                                assert(j != i && k != i);
                                assert(before.contains(k));
                            }
                        }
                    },
                }
            },
            None => {
                assert forall|k: usize| #[trigger]
                    duplicates@.contains(k) <==> k < i + 1 && exists|j: int|
                        0 <= j < i + 1 && j != k && #[trigger] same_url(all, k as int, j) by {
                    if k < i + 1 && (exists|j: int|
                        0 <= j < i + 1 && j != k && #[trigger] same_url(all, k as int, j)) {
                        let j = choose|j: int|
                            0 <= j < i + 1 && j != k && #[trigger] same_url(all, k as int, j);
                        assert(url_of(all[j]) == url_of(all[k as int]));
                        assert(j != i && k != i);
                        assert(before.contains(k));
                    }
                }
            },
        }
        i += 1;
    }
    assert(duplicates@ =~= duplicate_rows(all));
    duplicates
}

/// Whether `rows` goes upward, without a row twice, and stays below `n`.
pub open spec fn ascending(rows: Seq<usize>, n: int) -> bool {
    &&& forall|a: int, b: int| 0 <= a < b < rows.len() ==> rows[a] < rows[b]
    &&& forall|a: int| 0 <= a < rows.len() ==> rows[a] < n
}

/// The rows whose address a row above holds too, from the top down.
pub fn find_repeats(lines: &Vec<String>) -> (repeats: Vec<usize>)
    ensures
        ascending(repeats@, lines.len() as int),
        repeats@.to_set() == repeat_rows(texts(lines@)),
{
    let mut repeats: Vec<usize> = Vec::new();
    let mut seen = StringHashSet::new();
    let ghost all = texts(lines@);
    let mut i: usize = 0;
    while i < lines.len()
        invariant
            i <= lines.len(),
            all == texts(lines@),
            ascending(repeats@, i as int),
            forall|u: Seq<char>| #[trigger]
                seen@.contains(u) <==> exists|j: int|
                    0 <= j < i && #[trigger] url_of(all[j]) == Some(u),
            forall|k: usize| #[trigger] repeats@.contains(k) <==> k < i && is_repeat(all, k as int),
        decreases lines.len() - i,
    {
        assert(all[i as int] == lines@[i as int]@);
        let ghost old_seen = seen@;
        let ghost old_repeats = repeats@;
        match extract_url(lines[i].as_str()) {
            Some(url) => {
                let ghost u = url@;
                if !seen.insert(url) {
                    let ghost j = choose|j: int| 0 <= j < i && #[trigger] url_of(all[j]) == Some(u);
                    assert(same_url(all, i as int, j));
                    repeats.push(i);
                    assert forall|k: usize| #[trigger]
                        repeats@.contains(k) <==> k < i + 1 && is_repeat(all, k as int) by {
                        if repeats@.contains(k) && k != i {
                            let p = choose|p: int| 0 <= p < repeats@.len() && repeats@[p] == k;
                            assert(old_repeats[p] == k);
                        }
                        if old_repeats.contains(k) {
                            let p = choose|p: int|
                                0 <= p < old_repeats.len() && old_repeats[p] == k;
                            assert(repeats@[p] == k);
                        }
                        if k == i {
                            assert(repeats@[repeats@.len() - 1] == k);
                        }
                    }
                } else {
                    assert(!is_repeat(all, i as int)) by {
                        if is_repeat(all, i as int) {
                            let j = choose|j: int| 0 <= j < i && #[trigger] same_url(all, i as int, j);
                            assert(url_of(all[j]) == Some(u));
                        }
                    }
                }
                assert forall|v: Seq<char>| #[trigger]
                    seen@.contains(v) <==> exists|j: int|
                        0 <= j < i + 1 && #[trigger] url_of(all[j]) == Some(v) by {
                    if old_seen.contains(v) {
                        let j = choose|j: int| 0 <= j < i && #[trigger] url_of(all[j]) == Some(v);
                        assert(url_of(all[j]) == Some(v));
                    }
                    if v == u {
                        assert(url_of(all[i as int]) == Some(v));
                    }
                }
            },
            None => {
                assert(!is_repeat(all, i as int));
                assert forall|v: Seq<char>| #[trigger]
                    seen@.contains(v) <==> exists|j: int|
                        0 <= j < i + 1 && #[trigger] url_of(all[j]) == Some(v) by {
                    if old_seen.contains(v) {
                        let j = choose|j: int| 0 <= j < i && #[trigger] url_of(all[j]) == Some(v);
                        assert(url_of(all[j]) == Some(v));
                    }
                }
            },
        }
        i += 1;
    }
    assert(repeats@.to_set() =~= repeat_rows(all));
    repeats
}

// ---------------------------------------------------------------------------------------
// Taking rows out
// ---------------------------------------------------------------------------------------

/// Where no row of a stretch is in `rows`, the whole stretch stays.
proof fn lemma_kept_stretch(lines: Seq<Seq<char>>, rows: Set<usize>, from: int, to: int)
    requires
        0 <= from <= to <= lines.len() <= usize::MAX,
        forall|i: usize| from <= i < to ==> !rows.contains(i),
    ensures
        kept(lines, rows, from) == lines.subrange(from, to) + kept(lines, rows, to),
    decreases to - from,
{
    if from == to {
        assert(lines.subrange(from, to) + kept(lines, rows, to) =~= kept(lines, rows, to));
    } else {
        lemma_kept_stretch(lines, rows, from + 1, to);
        assert(lines.subrange(from, to) =~= seq![lines[from]] + lines.subrange(from + 1, to));
        assert(lines.subrange(from, to) + kept(lines, rows, to) =~= seq![lines[from]] + (
        lines.subrange(from + 1, to) + kept(lines, rows, to)));
    }
}

/// Where no row of a stretch is in `rows`, as many rows lie below its end as below its start.
proof fn lemma_below_stretch(rows: Set<usize>, from: int, to: int)
    requires
        0 <= from <= to <= usize::MAX,
        forall|i: usize| from <= i < to ==> !rows.contains(i),
    ensures
        rows_below(rows, to) == rows_below(rows, from),
    decreases to - from,
{
    if from < to {
        lemma_below_stretch(rows, from, to - 1);
    }
}

/// No more rows lie between two places than there is room for.
pub proof fn lemma_below_bounds(rows: Set<usize>, from: int, to: int)
    requires
        0 <= from <= to,
    ensures
        0 <= rows_below(rows, to) - rows_below(rows, from) <= to - from,
    decreases to - from,
{
    if from < to {
        lemma_below_bounds(rows, from, to - 1);
    }
}

/// Only the rows that exist matter.
pub proof fn lemma_same_rows(lines: Seq<Seq<char>>, a: Set<usize>, b: Set<usize>, from: int)
    requires
        0 <= from,
        lines.len() <= usize::MAX,
        forall|i: usize| i < lines.len() ==> (a.contains(i) <==> b.contains(i)),
    ensures
        kept(lines, a, from) == kept(lines, b, from),
        forall|k: int| k <= lines.len() ==> #[trigger] rows_below(a, k) == rows_below(b, k),
    decreases lines.len() - from,
{
    if from < lines.len() {
        lemma_same_rows(lines, a, b, from + 1);
    }
    assert forall|k: int| k <= lines.len() implies #[trigger] rows_below(a, k) == rows_below(
        b,
        k,
    ) by {
        lemma_same_below(a, b, k);
    }
}

proof fn lemma_same_below(a: Set<usize>, b: Set<usize>, k: int)
    requires
        k <= usize::MAX,
        forall|i: usize| i < k ==> (a.contains(i) <==> b.contains(i)),
    ensures
        rows_below(a, k) == rows_below(b, k),
    decreases k,
{
    if k > 0 {
        lemma_same_below(a, b, k - 1);
    }
}

/// Takes `rows` out of `lines`, from the bottom up, and gives back where a cursor on row
/// `cursor` then stands.
pub fn remove_rows(lines: &mut Vec<String>, cursor: usize, rows: &Vec<usize>) -> (at: usize)
    requires
        ascending(rows@, old(lines).len() as int),
    ensures
        texts(final(lines)@) == without_rows(texts(old(lines)@), rows@.to_set()),
        at == moved_up(cursor as int, rows@.to_set(), old(lines).len() as int),
{
    let ghost all = texts(lines@);
    let ghost n = all.len() as int;
    let ghost set = rows@.to_set();
    let ghost m = if cursor < n {
        cursor + 1
    } else {
        n
    };
    let ghost edge = n;
    let mut at: usize = cursor;
    let mut k: usize = rows.len();
    proof {
        assert(all =~= all.take(n) + kept(all, set, n));
    }
    while k > 0
        invariant
            k <= rows.len(),
            n == all.len(),
            n <= usize::MAX,
            set == rows@.to_set(),
            ascending(rows@, n),
            edge == (if k < rows.len() {
                rows@[k as int] as int
            } else {
                n
            }),
            m == (if cursor < n {
                cursor + 1
            } else {
                n
            }),
            texts(lines@) == all.take(edge) + kept(all, set, edge),
            lines@.len() == texts(lines@).len(),
            edge > m ==> at == cursor,
            edge <= m ==> at == (if cursor >= rows_below(set, m) - rows_below(set, edge) {
                cursor - (rows_below(set, m) - rows_below(set, edge))
            } else {
                0
            }),
        decreases k,
    {
        let i: usize = rows[k - 1];
        proof {
            assert(rows@[k - 1] == i);
            assert(i < edge);
            assert(set.contains(i));
            assert forall|j: usize| i < j < edge implies !set.contains(j) by {
                if rows@.contains(j) {
                    let p = choose|p: int| 0 <= p < rows@.len() && rows@[p] == j;
                    if p < k - 1 {
                        assert(rows@[p] < rows@[k - 1]);
                    }
                    if p >= k {
                        assert(p == k || rows@[k as int] < rows@[p]);
                    }
                }
            }
            lemma_kept_stretch(all, set, i + 1, edge);
            lemma_below_stretch(set, i + 1, edge);
            assert(kept(all, set, i as int) == kept(all, set, i + 1));
            assert(rows_below(set, i + 1) == rows_below(set, i as int) + 1);
            assert(texts(lines@) =~= all.take(i + 1) + kept(all, set, i + 1));
            if edge <= m {
                lemma_below_bounds(set, edge, m);
            } else if i < m {
                lemma_below_stretch(set, i + 1, m);
            }
        }
        let ghost old_lines = lines@;
        lines.remove(i);
        proof {
            assert(texts(lines@) =~= texts(old_lines).remove(i as int));
            assert(texts(lines@) =~= all.take(i as int) + kept(all, set, i as int));
            edge = i as int;
        }
        if at >= i && at > 0 {
            at -= 1;
        }
        k -= 1;
    }
    proof {
        assert forall|j: usize| 0 <= j < edge implies !set.contains(j) by {
            if rows@.contains(j) {
                let p = choose|p: int| 0 <= p < rows@.len() && rows@[p] == j;
                assert(p == 0 || rows@[0] < rows@[p]);
            }
        }
        lemma_kept_stretch(all, set, 0, edge);
        lemma_below_stretch(set, 0, edge);
        assert(all.take(edge) =~= all.subrange(0, edge));
        if edge > m {
            lemma_below_stretch(set, 0, m);
        }
    }
    at
}

} // verus!
