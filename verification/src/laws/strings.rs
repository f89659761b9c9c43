//! What holds of strings, numbers and lines.

use vstd::prelude::*;
use vstd::utf8::encode_utf8;

use crate::model::loaded_lines;
use crate::text::{
    after, before, byte_len, clipped, clips, decimal, find, joined, lemma_concat_splits,
    lemma_encode_concat, lemma_find, lemma_find_is, lemma_split, on_boundary, padded, spaces,
    split_lines, starts_with_http, texts, trimmed, trimmed_end, trimmed_start, white_space,
};

verus! {

// ---------------------------------------------------------------------------------------
// Bytes and characters
// ---------------------------------------------------------------------------------------

/// A character takes one to four bytes, by its code.
pub proof fn law_bytes_of_a_character(c: char)
    ensures
        (c as u32) < 0x80 ==> byte_len(seq![c]) == 1,
        0x80 <= (c as u32) < 0x800 ==> byte_len(seq![c]) == 2,
        0x800 <= (c as u32) < 0x10000 ==> byte_len(seq![c]) == 3,
        0x10000 <= (c as u32) ==> byte_len(seq![c]) == 4,
{
    reveal_with_fuel(encode_utf8, 2);
    assert(seq![c].drop_first() =~= seq![]);
}

/// The bytes of two texts put together are those of each.
pub proof fn law_bytes_add_up(a: Seq<char>, b: Seq<char>)
    ensures
        byte_len(a + b) == byte_len(a) + byte_len(b),
        byte_len(seq![]) == 0,
{
    lemma_encode_concat(a, b);
}

/// A text can be taken apart at a byte exactly where some of its characters end there.
pub proof fn law_boundaries(s: Seq<char>, at: int)
    ensures
        on_boundary(s, at) <==> exists|k: int|
            0 <= k <= s.len() && at == byte_len(#[trigger] s.take(k)),
{
    if on_boundary(s, at) {
        lemma_split(s, at);
        let k = before(s, at).len() as int;
        assert(s.take(k) =~= before(s, at));
        assert(at == byte_len(s.take(k)));
    }
    if exists|k: int| 0 <= k <= s.len() && at == byte_len(#[trigger] s.take(k)) {
        let k = choose|k: int| 0 <= k <= s.len() && at == byte_len(#[trigger] s.take(k));
        lemma_concat_splits(s.take(k), s.skip(k));
        assert(s.take(k) + s.skip(k) =~= s);
    }
}

/// Two texts put together can be taken apart again where the first one ends.
pub proof fn law_parts_come_apart(left: Seq<char>, right: Seq<char>)
    ensures
        on_boundary(left + right, byte_len(left)),
        before(left + right, byte_len(left)) == left,
        after(left + right, byte_len(left)) == right,
{
    lemma_concat_splits(left, right);
}

/// A text that is too long is cut to what there is room for, and any other is not cut.
pub proof fn law_clip(left: Seq<char>, right: Seq<char>, room: int)
    requires
        room >= byte_len(left),
    ensures
        clipped(left, room) == left,
        clips(left, room),
        clipped(left + right, byte_len(left)) == left,
        clips(left + right, byte_len(left)),
{
    lemma_concat_splits(left, right);
    if right.len() == 0 {
        assert(left + right =~= left);
    }
    crate::text::lemma_byte_len_positive(right);
}

/// Only a cut inside a character is ruled out.
pub proof fn law_clips_between_characters(s: Seq<char>, width: int)
    ensures
        clips(s, width) <==> byte_len(s) <= width || on_boundary(s, width),
{
}

// ---------------------------------------------------------------------------------------
// White space and searching
// ---------------------------------------------------------------------------------------

proof fn lemma_trim_start(w: Seq<char>, t: Seq<char>)
    requires
        forall|i: int| 0 <= i < w.len() ==> white_space(#[trigger] w[i]),
        t.len() == 0 || !white_space(t[0]),
    ensures
        trimmed_start(w + t) == t,
    decreases w.len(),
{
    if w.len() == 0 {
        assert(w + t =~= t);
    } else {
        assert((w + t)[0] == w[0]);
        assert((w + t).drop_first() =~= w.drop_first() + t);
        lemma_trim_start(w.drop_first(), t);
    }
}

proof fn lemma_trim_end(t: Seq<char>, w: Seq<char>)
    requires
        forall|i: int| 0 <= i < w.len() ==> white_space(#[trigger] w[i]),
        t.len() == 0 || !white_space(t.last()),
    ensures
        trimmed_end(t + w) == t,
    decreases w.len(),
{
    if w.len() == 0 {
        assert(t + w =~= t);
    } else {
        assert((t + w).last() == w.last());
        assert((t + w).drop_last() =~= t + w.drop_last());
        lemma_trim_end(t, w.drop_last());
    }
}

/// The characters that count as white space: tab, line feed, line tabulation, form feed, carriage
/// return and space; next line and no-break space; and the wide ones.
pub proof fn law_white_space(c: char)
    ensures
        white_space(c) <==> {
            ||| c == '\t' || c == '\n' || c == '\x0b' || c == '\x0c' || c == '\r' || c == ' '
            ||| c == '\u{85}' || c == '\u{a0}' || c == '\u{1680}'
            ||| '\u{2000}' <= c <= '\u{200a}'
            ||| c == '\u{2028}' || c == '\u{2029}' || c == '\u{202f}' || c == '\u{205f}'
            ||| c == '\u{3000}'
        },
{
}

/// Trimming takes away the white space on both sides, all of it and nothing else.
pub proof fn law_trim(w1: Seq<char>, t: Seq<char>, w2: Seq<char>)
    requires
        forall|i: int| 0 <= i < w1.len() ==> white_space(#[trigger] w1[i]),
        forall|i: int| 0 <= i < w2.len() ==> white_space(#[trigger] w2[i]),
        t.len() == 0 || (!white_space(t[0]) && !white_space(t.last())),
    ensures
        trimmed(w1 + t + w2) == t,
{
    if t.len() == 0 {
        let w = w1 + w2;
        assert(w1 + t + w2 =~= w + t);
        lemma_trim_start(w, t);
    } else {
        assert(w1 + t + w2 =~= w1 + (t + w2));
        lemma_trim_start(w1, t + w2);
        lemma_trim_end(t, w2);
    }
}

/// What trimming takes away is white space, on both sides of what it leaves.
pub proof fn lemma_trimmed_parts(s: Seq<char>) -> (sides: (Seq<char>, Seq<char>))
    ensures
        s == sides.0 + trimmed(s) + sides.1,
        forall|i: int| 0 <= i < sides.0.len() ==> white_space(#[trigger] sides.0[i]),
        forall|i: int| 0 <= i < sides.1.len() ==> white_space(#[trigger] sides.1[i]),
{
    let w1 = lemma_start_part(s);
    let w2 = lemma_end_part(trimmed_start(s));
    assert(s =~= w1 + trimmed(s) + w2);
    (w1, w2)
}

proof fn lemma_start_part(s: Seq<char>) -> (w: Seq<char>)
    ensures
        s == w + trimmed_start(s),
        forall|i: int| 0 <= i < w.len() ==> white_space(#[trigger] w[i]),
    decreases s.len(),
{
    if s.len() > 0 && white_space(s[0]) {
        let rest = lemma_start_part(s.drop_first());
        let w = seq![s[0]] + rest;
        assert(s =~= seq![s[0]] + s.drop_first());
        assert(w + trimmed_start(s) =~= seq![s[0]] + (rest + trimmed_start(s)));
        w
    } else {
        assert(s =~= Seq::<char>::empty() + s);
        seq![]
    }
}

proof fn lemma_end_part(s: Seq<char>) -> (w: Seq<char>)
    ensures
        s == trimmed_end(s) + w,
        forall|i: int| 0 <= i < w.len() ==> white_space(#[trigger] w[i]),
    decreases s.len(),
{
    if s.len() > 0 && white_space(s.last()) {
        let rest = lemma_end_part(s.drop_last());
        let w = rest + seq![s.last()];
        assert(s =~= s.drop_last() + seq![s.last()]);
        assert(trimmed_end(s) + w =~= (trimmed_end(s) + rest) + seq![s.last()]);
        w
    } else {
        assert(s =~= s + Seq::<char>::empty());
        seq![]
    }
}

/// A search finds the end of a stretch without the character, and nothing where there is none.
pub proof fn law_search(head: Seq<char>, stretch: Seq<char>, c: char, tail: Seq<char>)
    requires
        !stretch.contains(c),
    ensures
        find(head + stretch + seq![c] + tail, c, head.len() as int) == Some(
            (head.len() + stretch.len()) as int,
        ),
        find(head + stretch, c, head.len() as int) is None,
{
    let s = head + stretch + seq![c] + tail;
    assert forall|j: int| head.len() <= j < head.len() + stretch.len() implies s[j] != c by {
        assert(stretch.contains(stretch[j - head.len()]));
    }
    lemma_find_is(s, c, head.len() as int, (head.len() + stretch.len()) as int);
    let p = head + stretch;
    lemma_find(p, c, head.len() as int);
    match find(p, c, head.len() as int) {
        Some(k) => {
            assert(stretch.contains(stretch[k - head.len()]));
        },
        None => {},
    }
}

/// A text starts with `http` exactly where it is `http` and some rest.
pub proof fn law_http_prefix(s: Seq<char>)
    ensures
        starts_with_http(s) <==> exists|rest: Seq<char>| s == #[trigger] ("http"@ + rest),
{
    reveal_strlit("http");
    if starts_with_http(s) {
        assert(s =~= "http"@ + s.skip(4));
    }
}

// ---------------------------------------------------------------------------------------
// Decimal numbers
// ---------------------------------------------------------------------------------------

/// The number that a row of digits is read as.
pub open spec fn read_number(s: Seq<char>) -> int
    decreases s.len(),
{
    if s.len() == 0 {
        0
    } else {
        10 * read_number(s.drop_last()) + (s.last() as int - '0' as int)
    }
}

/// A number that is written in decimal is read as the same number; it is written in digits, and
/// without a zero in front.
pub proof fn law_decimal_reads_back(n: int)
    requires
        0 <= n,
    ensures
        read_number(decimal(n)) == n,
        decimal(n).len() > 0,
        forall|i: int| 0 <= i < decimal(n).len() ==> '0' <= #[trigger] decimal(n)[i] <= '9',
        n < 10 ==> decimal(n).len() == 1,
        n > 0 ==> decimal(n)[0] != '0',
    decreases n,
{
    let s = decimal(n);
    if n < 10 {
        assert(s.drop_last() =~= seq![]);
        reveal_with_fuel(read_number, 2);
    } else {
        law_decimal_reads_back(n / 10);
        assert(s.drop_last() =~= decimal(n / 10));
        assert(s[0] == decimal(n / 10)[0]);
    }
}

/// Padding puts spaces in front, and no more of them than it takes.
pub proof fn law_padding(s: Seq<char>, width: int, n: int)
    ensures
        padded(s, width).len() == (if width > s.len() {
            width
        } else {
            s.len() as int
        }),
        padded(s, width).skip(padded(s, width).len() - s.len()) == s,
        forall|i: int|
            0 <= i < padded(s, width).len() - s.len() ==> #[trigger] padded(s, width)[i] == ' ',
        spaces(n).len() == (if n > 0 {
            n
        } else {
            0
        }),
        forall|i: int| 0 <= i < spaces(n).len() ==> #[trigger] spaces(n)[i] == ' ',
{
    assert(padded(s, width).skip(padded(s, width).len() - s.len()) =~= s);
}

// ---------------------------------------------------------------------------------------
// Lines
// ---------------------------------------------------------------------------------------

/// The text of a list of strings is the text of each, in order.
pub proof fn law_texts(lines: Seq<String>)
    ensures
        texts(lines).len() == lines.len(),
        forall|i: int| 0 <= i < lines.len() ==> #[trigger] texts(lines)[i] == lines[i]@,
{
}

/// The first line of a text is what stands in front of its first line feed, less one carriage
/// return at the end; the other lines are those of the rest.
pub proof fn law_first_line(line: Seq<char>, rest: Seq<char>)
    requires
        !line.contains('\n'),
    ensures
        line.len() == 0 || line.last() != '\r' ==> split_lines(line + seq!['\n'] + rest)
            == seq![line] + split_lines(rest),
        split_lines(line + seq!['\r', '\n'] + rest) == seq![line] + split_lines(rest),
{
    let s = line + seq!['\n'] + rest;
    assert forall|j: int| 0 <= j < line.len() implies s[j] != '\n' by {
        assert(line.contains(line[j]));
    }
    lemma_find_is(s, '\n', 0, line.len() as int);
    assert(s.take(line.len() as int) =~= line);
    assert(s.skip(line.len() as int + 1) =~= rest);
    let ended = line.push('\r');
    let r = line + seq!['\r', '\n'] + rest;
    assert forall|j: int| 0 <= j < ended.len() implies r[j] != '\n' by {
        if j < line.len() {
            assert(line.contains(line[j]));
        }
    }
    lemma_find_is(r, '\n', 0, ended.len() as int);
    assert(r.take(ended.len() as int) =~= ended);
    assert(ended.drop_last() =~= line);
    assert(r.skip(ended.len() as int + 1) =~= rest);
}

/// A text without a line feed is one line, or none where it is empty.
pub proof fn law_last_line(line: Seq<char>)
    requires
        !line.contains('\n'),
    ensures
        line.len() > 0 ==> split_lines(line) == seq![line],
        line.len() == 0 ==> split_lines(line) == Seq::<Seq<char>>::empty(),
{
    lemma_find(line, '\n', 0);
    match find(line, '\n', 0) {
        Some(k) => {
            assert(line.contains(line[k]));
        },
        None => {},
    }
}

/// A loaded text shows its lines; an empty text shows one empty line.
pub proof fn law_loaded_text(content: Seq<char>)
    ensures
        content.len() > 0 ==> loaded_lines(content) == split_lines(content),
        content.len() == 0 ==> loaded_lines(content) == seq![Seq::<char>::empty()],
{
    lemma_find(content, '\n', 0);
}

/// Lines put together are the first ones, a line feed, and the others.
pub proof fn law_join(first: Seq<Seq<char>>, others: Seq<Seq<char>>, line: Seq<char>)
    requires
        first.len() > 0,
        others.len() > 0,
    ensures
        joined(first + others) == joined(first) + seq!['\n'] + joined(others),
        joined(seq![line]) == line,
        joined(seq![]) == Seq::<char>::empty(),
    decreases others.len(),
{
    let all = first + others;
    if others.len() == 1 {
        assert(all.drop_last() =~= first);
    } else {
        assert(all.drop_last() =~= first + others.drop_last());
        law_join(first, others.drop_last(), line);
        assert(joined(all) =~= joined(first) + seq!['\n'] + joined(others));
    }
}

} // verus!
