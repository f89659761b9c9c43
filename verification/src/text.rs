//! Text as the editor sees it: strings of characters addressed by byte, white space,
//! decimal numbers, and the split of a file into lines.

use vstd::prelude::*;
use vstd::string::StringExecFns;
use vstd::utf8::{decode_utf8, encode_utf8, is_char_boundary};

verus! {

/// Specifies `String::push`: the character is appended to the end of the string.
pub assume_specification[ String::push ](s: &mut String, ch: char)
    ensures
        final(s)@ == old(s)@.push(ch),
;

// ---------------------------------------------------------------------------------------
// Bytes and characters
// ---------------------------------------------------------------------------------------

/// The number of bytes that the UTF-8 form of `s` takes.
pub open spec fn byte_len(s: Seq<char>) -> int {
    encode_utf8(s).len() as int
}

/// Whether byte offset `at` of `s` falls between two characters or at either end.
pub open spec fn on_boundary(s: Seq<char>, at: int) -> bool {
    is_char_boundary(encode_utf8(s), at)
}

/// The characters of `s` in front of byte offset `at`.
pub open spec fn before(s: Seq<char>, at: int) -> Seq<char> {
    decode_utf8(encode_utf8(s).subrange(0, at))
}

/// The characters of `s` from byte offset `at` on.
pub open spec fn after(s: Seq<char>, at: int) -> Seq<char> {
    decode_utf8(encode_utf8(s).subrange(at, encode_utf8(s).len() as int))
}

/// What is left of `s` when it is cut down to `width` bytes.
pub open spec fn clipped(s: Seq<char>, width: int) -> Seq<char> {
    if byte_len(s) > width {
        before(s, width)
    } else {
        s
    }
}

/// Whether cutting `s` down to `width` bytes does not cut a character in two.
pub open spec fn clips(s: Seq<char>, width: int) -> bool {
    byte_len(s) > width ==> on_boundary(s, width)
}

/// A boundary lies within the string, and the two sides of it make up the string.
pub proof fn lemma_split(s: Seq<char>, at: int)
    requires
        on_boundary(s, at),
    ensures
        0 <= at <= byte_len(s),
        before(s, at) + after(s, at) == s,
        encode_utf8(before(s, at)) == encode_utf8(s).subrange(0, at),
        encode_utf8(after(s, at)) == encode_utf8(s).subrange(at, byte_len(s)),
        byte_len(before(s, at)) == at,
        byte_len(after(s, at)) == byte_len(s) - at,
{
    let bytes = encode_utf8(s);
    vstd::utf8::encode_utf8_valid_utf8(s);
    vstd::utf8::encode_utf8_decode_utf8(s);
    vstd::utf8::valid_utf8_split(bytes, at);
    vstd::utf8::decode_utf8_split(bytes, at);
    vstd::utf8::decode_utf8_encode_utf8(bytes.subrange(0, at));
    vstd::utf8::decode_utf8_encode_utf8(bytes.subrange(at, bytes.len() as int));
}

/// The bytes of two strings put together are the bytes of each, one after the other.
pub proof fn lemma_encode_concat(a: Seq<char>, b: Seq<char>)
    ensures
        encode_utf8(a + b) == encode_utf8(a) + encode_utf8(b),
    decreases a.len(),
{
    if a.len() == 0 {
        assert(a + b =~= b);
        assert(encode_utf8(a) + encode_utf8(b) =~= encode_utf8(b));
    } else {
        lemma_encode_concat(a.drop_first(), b);
        assert((a + b).drop_first() =~= a.drop_first() + b);
        assert((a + b)[0] == a[0]);
        assert(encode_utf8(a) + encode_utf8(b) =~= vstd::utf8::encode_scalar(a[0] as u32) + (
        encode_utf8(a.drop_first()) + encode_utf8(b)));
    }
}

/// The end of one string is a boundary of the two put together, and splits them again.
pub proof fn lemma_concat_splits(a: Seq<char>, b: Seq<char>)
    ensures
        on_boundary(a + b, byte_len(a)),
        before(a + b, byte_len(a)) == a,
        after(a + b, byte_len(a)) == b,
        byte_len(a + b) == byte_len(a) + byte_len(b),
    decreases a.len(),
{
    lemma_encode_concat(a, b);
    let bytes = encode_utf8(a + b);
    assert(bytes.subrange(0, byte_len(a)) =~= encode_utf8(a));
    assert(bytes.subrange(byte_len(a), bytes.len() as int) =~= encode_utf8(b));
    vstd::utf8::encode_utf8_decode_utf8(a);
    vstd::utf8::encode_utf8_decode_utf8(b);
    vstd::utf8::encode_utf8_valid_utf8(a + b);
    vstd::utf8::encode_utf8_valid_utf8(a);
    vstd::utf8::encode_utf8_valid_utf8(b);
    if byte_len(b) == 0 {
        vstd::utf8::is_char_boundary_start_end_of_seq(bytes);
    } else {
        vstd::utf8::is_char_boundary_start_end_of_seq(encode_utf8(b));
        vstd::utf8::is_char_boundary_iff_not_is_continuation_byte(encode_utf8(b), 0);
        assert(bytes[byte_len(a)] == encode_utf8(b)[0]);
        vstd::utf8::is_char_boundary_iff_not_is_continuation_byte(bytes, byte_len(a));
    }
}

/// A string of at least one character takes at least one byte.
pub proof fn lemma_byte_len_positive(s: Seq<char>)
    ensures
        byte_len(s) == 0 <==> s.len() == 0,
{
    if s.len() > 0 {
        vstd::utf8::encode_utf8_first_scalar(s);
    }
}

/// The number of bytes in `s`.
pub fn len_in_bytes(s: &str) -> (n: usize)
    ensures
        n == byte_len(s@),
{
    s.as_bytes().len()
}

/// Whether `at` is a place where `s` can be taken apart.
pub fn is_boundary(s: &str, at: usize) -> (b: bool)
    ensures
        b == on_boundary(s@, at as int),
{
    s.is_char_boundary(at)
}

/// Takes `s` apart at byte offset `at`.
pub fn split(s: &str, at: usize) -> (parts: (&str, &str))
    requires
        on_boundary(s@, at as int),
    ensures
        parts.0@ == before(s@, at as int),
        parts.1@ == after(s@, at as int),
{
    let parts = s.split_at(at);
    proof {
        vstd::utf8::encode_utf8_decode_utf8(parts.0@);
        vstd::utf8::encode_utf8_decode_utf8(parts.1@);
    }
    parts
}

/// Cuts `s` down to at most `width` bytes.
pub fn clip(s: &str, width: usize) -> (cut: &str)
    requires
        clips(s@, width as int),
    ensures
        cut@ == clipped(s@, width as int),
{
    if len_in_bytes(s) > width {
        split(s, width).0
    } else {
        s
    }
}

/// The characters of `s`.
pub fn chars_of(s: &str) -> (chars: Vec<char>)
    ensures
        chars@ == s@,
{
    let mut chars: Vec<char> = Vec::new();
    for c in it: s.chars()
        invariant
            chars@ == s@.take(it.index()),
            it.seq() == s@,
    {
        chars.push(c);
        assert(s@.take(it.index() + 1) =~= s@.take(it.index()).push(c));
    }
    assert(s@.take(s@.len() as int) =~= s@);
    chars
}

/// The characters from `from` up to `to`, as a string.
pub fn string_of(chars: &Vec<char>, from: usize, to: usize) -> (s: String)
    requires
        from <= to <= chars.len(),
    ensures
        s@ == chars@.subrange(from as int, to as int),
{
    let mut s = String::new();
    let mut i: usize = from;
    while i < to
        invariant
            from <= i <= to <= chars.len(),
            s@ == chars@.subrange(from as int, i as int),
        decreases to - i,
    {
        s.push(chars[i]);
        assert(chars@.subrange(from as int, i + 1) =~= chars@.subrange(from as int, i as int).push(
            chars@[i as int],
        ));
        i += 1;
    }
    s
}

// ---------------------------------------------------------------------------------------
// White space and searching
// ---------------------------------------------------------------------------------------

/// The characters with the Unicode property White_Space.
pub open spec fn white_space(c: char) -> bool {
    let code = c as u32;
    ||| 0x9 <= code <= 0xd
    ||| code == 0x20
    ||| code == 0x85
    ||| code == 0xa0
    ||| code == 0x1680
    ||| 0x2000 <= code <= 0x200a
    ||| code == 0x2028
    ||| code == 0x2029
    ||| code == 0x202f
    ||| code == 0x205f
    ||| code == 0x3000
}

/// Whether `c` is white space.
pub fn is_white_space(c: char) -> (b: bool)
    ensures
        b == white_space(c),
{
    let code: u32 = c as u32;
    (0x9 <= code && code <= 0xd) || code == 0x20 || code == 0x85 || code == 0xa0 || code == 0x1680
        || (0x2000 <= code && code <= 0x200a) || code == 0x2028 || code == 0x2029 || code == 0x202f
        || code == 0x205f || code == 0x3000
}

/// `s` without the white space in front.
pub open spec fn trimmed_start(s: Seq<char>) -> Seq<char>
    decreases s.len(),
{
    if s.len() > 0 && white_space(s[0]) {
        trimmed_start(s.drop_first())
    } else {
        s
    }
}

/// `s` without the white space at the end.
pub open spec fn trimmed_end(s: Seq<char>) -> Seq<char>
    decreases s.len(),
{
    if s.len() > 0 && white_space(s.last()) {
        trimmed_end(s.drop_last())
    } else {
        s
    }
}

/// `s` without the white space on either side.
pub open spec fn trimmed(s: Seq<char>) -> Seq<char> {
    trimmed_end(trimmed_start(s))
}

/// The bounds of what is left of `chars` without the white space on either side.
pub fn trim_bounds(chars: &Vec<char>) -> (bounds: (usize, usize))
    ensures
        bounds.0 <= bounds.1 <= chars.len(),
        trimmed(chars@) == chars@.subrange(bounds.0 as int, bounds.1 as int),
{
    let n: usize = chars.len();
    let mut from: usize = 0;
    assert(chars@.subrange(0, n as int) =~= chars@);
    while from < n && is_white_space(chars[from])
        invariant
            from <= n == chars.len(),
            trimmed_start(chars@) == trimmed_start(chars@.subrange(from as int, n as int)),
        decreases n - from,
    {
        assert(chars@.subrange(from as int, n as int).drop_first() =~= chars@.subrange(
            from + 1,
            n as int,
        ));
        from += 1;
    }
    let mut to: usize = n;
    while from < to && is_white_space(chars[to - 1])
        invariant
            from <= to <= n == chars.len(),
            trimmed(chars@) == trimmed_end(chars@.subrange(from as int, to as int)),
        decreases to,
    {
        assert(chars@.subrange(from as int, to as int).drop_last() =~= chars@.subrange(
            from as int,
            to - 1,
        ));
        to -= 1;
    }
    (from, to)
}

/// `s` without the white space on either side.
pub fn trim(s: &str) -> (t: String)
    ensures
        t@ == trimmed(s@),
{
    let chars = chars_of(s);
    let bounds = trim_bounds(&chars);
    string_of(&chars, bounds.0, bounds.1)
}

/// Where `c` first occurs in `s`, from position `from` on.
pub open spec fn find(s: Seq<char>, c: char, from: int) -> Option<int>
    decreases s.len() - from,
{
    if from >= s.len() {
        None
    } else if s[from] == c {
        Some(from)
    } else {
        find(s, c, from + 1)
    }
}

/// What `find` gives back is the first place, or there is none.
pub proof fn lemma_find(s: Seq<char>, c: char, from: int)
    requires
        0 <= from,
    ensures
        match find(s, c, from) {
            Some(k) => from <= k < s.len() && s[k] == c && forall|j: int|
                from <= j < k ==> s[j] != c,
            None => forall|j: int| from <= j < s.len() ==> s[j] != c,
        },
    decreases s.len() - from,
{
    if from < s.len() && s[from] != c {
        lemma_find(s, c, from + 1);
    }
}

/// The first place decides what `find` gives back.
pub proof fn lemma_find_is(s: Seq<char>, c: char, from: int, k: int)
    requires
        0 <= from <= k < s.len(),
        s[k] == c,
        forall|j: int| from <= j < k ==> s[j] != c,
    ensures
        find(s, c, from) == Some(k),
{
    lemma_find(s, c, from);
    match find(s, c, from) {
        Some(j) => {
            if j < k {
                assert(s[j] != c);
            }
            if k < j {
                assert(s[k] != c);
            }
        },
        None => {
            assert(s[k] != c);
        },
    }
}

/// Searches `chars` for `c`, from position `from` on.
pub fn find_char(chars: &Vec<char>, c: char, from: usize) -> (at: Option<usize>)
    requires
        from <= chars.len(),
    ensures
        match at {
            Some(k) => find(chars@, c, from as int) == Some(k as int) && from <= k < chars.len(),
            None => find(chars@, c, from as int) is None,
        },
{
    let mut i: usize = from;
    while i < chars.len()
        invariant
            from <= i <= chars.len(),
            find(chars@, c, from as int) == find(chars@, c, i as int),
        decreases chars.len() - i,
    {
        if chars[i] == c {
            return Some(i);
        }
        i += 1;
    }
    None
}

/// Whether `s` starts with `http`, as every address does.
pub open spec fn starts_with_http(s: Seq<char>) -> bool {
    s.len() >= 4 && s[0] == 'h' && s[1] == 't' && s[2] == 't' && s[3] == 'p'
}

// ---------------------------------------------------------------------------------------
// Decimal numbers
// ---------------------------------------------------------------------------------------

/// The character that writes `d`.
pub open spec fn digit(d: int) -> char {
    seq!['0', '1', '2', '3', '4', '5', '6', '7', '8', '9'][d]
}

/// `n` written in decimal, without leading zeros.
pub open spec fn decimal(n: int) -> Seq<char>
    decreases n,
{
    if n < 10 {
        seq![digit(n)]
    } else {
        decimal(n / 10).push(digit(n % 10))
    }
}

/// `n` spaces.
pub open spec fn spaces(n: int) -> Seq<char> {
    Seq::new(
        if n > 0 {
            n as nat
        } else {
            0
        },
        |i: int| ' ',
    )
}

/// `s` with as many spaces in front as make it `width` characters wide.
pub open spec fn padded(s: Seq<char>, width: int) -> Seq<char> {
    spaces(width - s.len()) + s
}

/// Writes `n` in decimal at the end of `out`.
pub fn push_decimal(out: &mut String, n: usize)
    ensures
        final(out)@ == old(out)@ + decimal(n as int),
    decreases n,
{
    if n >= 10 {
        push_decimal(out, n / 10);
    }
    let d: usize = n % 10;
    let c = match d {
        0 => '0',
        1 => '1',
        2 => '2',
        3 => '3',
        4 => '4',
        5 => '5',
        6 => '6',
        7 => '7',
        8 => '8',
        _ => '9',
    };
    assert(c == digit(d as int));
    out.push(c);
    assert(out@ =~= old(out)@ + decimal(n as int));
}

/// Writes `n` spaces at the end of `out`.
pub fn push_spaces(out: &mut String, n: usize)
    ensures
        final(out)@ == old(out)@ + spaces(n as int),
{
    let mut i: usize = 0;
    assert(out@ =~= old(out)@ + spaces(0));
    while i < n
        invariant
            i <= n,
            out@ == old(out)@ + spaces(i as int),
        decreases n - i,
    {
        out.push(' ');
        assert(out@ =~= old(out)@ + spaces(i + 1));
        i += 1;
    }
}

/// `n` in decimal, with as many spaces in front as make it `width` characters wide.
pub fn push_padded(out: &mut String, n: usize, width: usize)
    ensures
        final(out)@ == old(out)@ + padded(decimal(n as int), width as int),
{
    let mut number = String::new();
    push_decimal(&mut number, n);
    assert(number@ =~= decimal(n as int));
    let wide: usize = chars_of(number.as_str()).len();
    if wide < width {
        push_spaces(out, width - wide);
    }
    out.append(number.as_str());
    assert(out@ =~= old(out)@ + padded(decimal(n as int), width as int));
}

// ---------------------------------------------------------------------------------------
// Lines
// ---------------------------------------------------------------------------------------

/// The text of each string of a list.
pub open spec fn texts(lines: Seq<String>) -> Seq<Seq<char>> {
    Seq::new(lines.len(), |i: int| lines[i]@)
}

/// `s` without a carriage return at its end.
pub open spec fn without_return(s: Seq<char>) -> Seq<char> {
    if s.len() > 0 && s.last() == '\r' {
        s.drop_last()
    } else {
        s
    }
}

/// The lines of `s`. A line ends at a line feed, which is not part of it, nor is a carriage
/// return right in front of the line feed. A line feed at the very end starts no new line.
pub open spec fn split_lines(s: Seq<char>) -> Seq<Seq<char>>
    decreases s.len(),
{
    proof {
        lemma_find(s, '\n', 0);
    }
    match find(s, '\n', 0) {
        Some(k) => seq![without_return(s.take(k))] + split_lines(s.skip(k + 1)),
        None => if s.len() == 0 {
            seq![]
        } else {
            seq![s]
        },
    }
}

/// The lines with a line feed between each two.
pub open spec fn joined(lines: Seq<Seq<char>>) -> Seq<char>
    decreases lines.len(),
{
    if lines.len() == 0 {
        seq![]
    } else if lines.len() == 1 {
        lines[0]
    } else {
        joined(lines.drop_last()) + seq!['\n'] + lines.last()
    }
}

/// Splits `content` into lines.
pub fn lines_of(content: &str) -> (lines: Vec<String>)
    ensures
        texts(lines@) == split_lines(content@),
{
    let chars = chars_of(content);
    let n: usize = chars.len();
    let mut lines: Vec<String> = Vec::new();
    let mut start: usize = 0;
    let mut i: usize = 0;
    assert(texts(lines@) + split_lines(chars@.skip(0)) =~= split_lines(chars@)) by {
        assert(chars@.skip(0) =~= chars@);
    }
    while i < n
        invariant
            start <= i <= n == chars.len(),
            texts(lines@) + split_lines(chars@.skip(start as int)) == split_lines(chars@),
            forall|j: int| start <= j < i ==> chars@[j] != '\n',
        decreases n - i,
    {
        if chars[i] == '\n' {
            let end: usize = if i > start && chars[i - 1] == '\r' {
                i - 1
            } else {
                i
            };
            let ghost rest = chars@.skip(start as int);
            let ghost done = texts(lines@);
            let line = string_of(&chars, start, end);
            proof {
                lemma_find_is(rest, '\n', 0, i - start);
                assert(rest.take(i - start) =~= chars@.subrange(start as int, i as int));
                assert(line@ =~= without_return(rest.take(i - start)));
                assert(rest.skip(i - start + 1) =~= chars@.skip(i + 1));
            }
            lines.push(line);
            proof {
                assert(texts(lines@) =~= done.push(line@));
                assert(texts(lines@) + split_lines(chars@.skip(i + 1)) =~= done + split_lines(rest));
            }
            start = i + 1;
        }
        i += 1;
    }
    let ghost rest = chars@.skip(start as int);
    proof {
        lemma_find(rest, '\n', 0);
        match find(rest, '\n', 0) {
            Some(k) => {
                assert(chars@[start + k] != '\n');
            },
            None => {},
        }
    }
    if start < n {
        let ghost done = texts(lines@);
        let line = string_of(&chars, start, n);
        assert(line@ =~= rest);
        lines.push(line);
        assert(texts(lines@) =~= done + seq![rest]);
    } else {
        assert(texts(lines@) =~= texts(lines@) + split_lines(rest));
    }
    lines
}

/// Puts the lines together, with a line feed between each two.
pub fn join_lines(lines: &Vec<String>) -> (content: String)
    ensures
        content@ == joined(texts(lines@)),
{
    let mut content = String::new();
    let ghost all = texts(lines@);
    let mut i: usize = 0;
    assert(all.take(0) =~= seq![]);
    while i < lines.len()
        invariant
            i <= lines.len(),
            all == texts(lines@),
            content@ == joined(all.take(i as int)),
        decreases lines.len() - i,
    {
        assert(all.take(i + 1).drop_last() =~= all.take(i as int));
        if i > 0 {
            content.push('\n');
        }
        content.append(lines[i].as_str());
        assert(content@ =~= joined(all.take(i + 1)));
        i += 1;
    }
    assert(all.take(all.len() as int) =~= all);
    content
}

} // verus!
