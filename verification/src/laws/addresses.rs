//! What holds of the address on a line, and of the rows that hold the same.

use vstd::prelude::*;

use crate::laws::strings::{law_trim, lemma_trimmed_parts};
use crate::rows::{duplicate_rows, is_duplicate, is_repeat, repeat_rows, same_url};
use crate::text::{find, lemma_find, lemma_find_is, trimmed, white_space};
use crate::url::url_of;

verus! {

/// Whether `line` is a list entry that quotes `u`: between white space, `a` that starts with `[`,
/// then `u` in double quotes, the first on the line, then `b` that ends with `]` or `],`. The
/// quoted text starts with `http`.
pub open spec fn quotes(
    line: Seq<char>,
    w1: Seq<char>,
    a: Seq<char>,
    u: Seq<char>,
    b: Seq<char>,
    w2: Seq<char>,
) -> bool {
    &&& line == w1 + (a + seq!['"'] + u + seq!['"'] + b) + w2
    &&& forall|i: int| 0 <= i < w1.len() ==> white_space(#[trigger] w1[i])
    &&& forall|i: int| 0 <= i < w2.len() ==> white_space(#[trigger] w2[i])
    &&& a.len() > 0 && a[0] == '['
    &&& !a.contains('"')
    &&& !u.contains('"')
    &&& u.len() >= 4 && u.take(4) == seq!['h', 't', 't', 'p']
    &&& b.len() > 0 && (b.last() == ']' || (b.len() > 1 && b.last() == ',' && b[b.len() - 2]
        == ']'))
}

/// The address of an entry is the whole of its first quoted text.
pub proof fn law_quoted_text_is_the_address(
    line: Seq<char>,
    w1: Seq<char>,
    a: Seq<char>,
    u: Seq<char>,
    b: Seq<char>,
    w2: Seq<char>,
)
    requires
        quotes(line, w1, a, u, b, w2),
    ensures
        url_of(line) == Some(u),
{
    let t = a + seq!['"'] + u + seq!['"'] + b;
    let open = a.len() as int;
    let close = open + 1 + u.len();
    law_trim(w1, t, w2);
    assert forall|j: int| 0 <= j < open implies t[j] != '"' by {
        assert(a.contains(a[j]));
    }
    assert forall|j: int| open + 1 <= j < close implies t[j] != '"' by {
        assert(u.contains(u[j - open - 1]));
    }
    lemma_find_is(t, '"', 0, open);
    lemma_find_is(t, '"', open + 1, close);
    assert(t.subrange(open + 1, close) =~= u);
    assert(u.take(4)[0] == u[0] && u.take(4)[1] == u[1] && u.take(4)[2] == u[2] && u.take(4)[3]
        == u[3]);
    assert(t.last() == b.last());
    assert(b.len() > 1 ==> t[t.len() - 2] == b[b.len() - 2]);
}

/// Only an entry has an address, and that is its first quoted text.
pub proof fn law_only_entries_have_addresses(line: Seq<char>, u: Seq<char>)
    requires
        url_of(line) == Some(u),
    ensures
        exists|w1: Seq<char>, a: Seq<char>, b: Seq<char>, w2: Seq<char>|
            #[trigger] quotes(line, w1, a, u, b, w2),
{
    let (w1, w2) = lemma_trimmed_parts(line);
    let t = trimmed(line);
    lemma_find(t, '"', 0);
    let open = find(t, '"', 0)->0;
    lemma_find(t, '"', open + 1);
    let close = find(t, '"', open + 1)->0;
    let a = t.take(open);
    let b = t.skip(close + 1);
    assert(t =~= a + seq!['"'] + u + seq!['"'] + b);
    assert(u.take(4) =~= seq!['h', 't', 't', 'p']);
    assert(t[close] == '"');
    assert(t[open] == '"');
    assert(b.len() > 0);
    assert(b.last() == t.last());
    assert(b.len() > 1 ==> b[b.len() - 2] == t[t.len() - 2]);
    assert(quotes(line, w1, a, u, b, w2));
}

/// Entries that quote different texts have different addresses.
pub proof fn law_different_texts_differ(
    line: Seq<char>,
    w1: Seq<char>,
    a: Seq<char>,
    u: Seq<char>,
    b: Seq<char>,
    w2: Seq<char>,
    other: Seq<char>,
    x1: Seq<char>,
    c: Seq<char>,
    v: Seq<char>,
    d: Seq<char>,
    x2: Seq<char>,
)
    requires
        quotes(line, w1, a, u, b, w2),
        quotes(other, x1, c, v, d, x2),
    ensures
        url_of(line) == url_of(other) <==> u == v,
{
    law_quoted_text_is_the_address(line, w1, a, u, b, w2);
    law_quoted_text_is_the_address(other, x1, c, v, d, x2);
}

/// Two rows with the same address are both marked as duplicates, and the lower one repeats the
/// upper one.
pub proof fn law_same_address_is_marked(lines: Seq<Seq<char>>, i: usize, j: usize)
    requires
        i < j < lines.len(),
        url_of(lines[i as int]) is Some,
        url_of(lines[i as int]) == url_of(lines[j as int]),
    ensures
        duplicate_rows(lines).contains(i),
        duplicate_rows(lines).contains(j),
        repeat_rows(lines).contains(j),
{
    assert(same_url(lines, i as int, j as int));
    assert(same_url(lines, j as int, i as int));
}

/// A row whose address no other row holds is not marked, nor is one without an address; a row
/// whose address no row above holds repeats nothing.
pub proof fn law_others_are_not_marked(lines: Seq<Seq<char>>, i: usize)
    ensures
        i >= lines.len() ==> !duplicate_rows(lines).contains(i) && !repeat_rows(lines).contains(i),
        url_of(lines[i as int]) is None ==> !duplicate_rows(lines).contains(i) && !repeat_rows(
            lines,
        ).contains(i),
        (forall|j: int|
            0 <= j < lines.len() && j != i ==> url_of(#[trigger] lines[j]) != url_of(
                lines[i as int],
            )) ==> !duplicate_rows(lines).contains(i),
        (forall|j: int|
            0 <= j < i && j < lines.len() ==> url_of(#[trigger] lines[j]) != url_of(
                lines[i as int],
            )) ==> !repeat_rows(lines).contains(i),
{
    if is_duplicate(lines, i as int) {
        let j = choose|j: int|
            0 <= j < lines.len() && j != i && #[trigger] same_url(lines, i as int, j);
        assert(url_of(lines[j]) == url_of(lines[i as int]));
    }
    if is_repeat(lines, i as int) {
        let j = choose|j: int| 0 <= j < i && #[trigger] same_url(lines, i as int, j);
        assert(url_of(lines[j]) == url_of(lines[i as int]));
    }
}

} // verus!
