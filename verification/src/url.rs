//! The address that a line of an emote list holds.

use vstd::prelude::*;

use crate::text::{
    chars_of, find, find_char, lemma_find, starts_with_http, string_of, trim_bounds, trimmed,
};

verus! {

/// Whether a trimmed line is one list entry: `[` in front, `]` or `],` at the end.
pub open spec fn is_entry(t: Seq<char>) -> bool {
    &&& t.len() > 0
    &&& t[0] == '['
    &&& t.last() == ']' || (t.len() > 1 && t[t.len() - 2] == ']' && t.last() == ',')
}

/// The address on a line: the text between the first two double quotes of a list entry,
/// where it starts with `http`.
pub open spec fn url_of(line: Seq<char>) -> Option<Seq<char>> {
    let t = trimmed(line);
    if !is_entry(t) {
        None
    } else {
        match find(t, '"', 0) {
            Some(open) => match find(t, '"', open + 1) {
                Some(close) => {
                    let url = t.subrange(open + 1, close);
                    if starts_with_http(url) {
                        Some(url)
                    } else {
                        None
                    }
                },
                None => None,
            },
            None => None,
        }
    }
}

/// The address on `line`, where there is one.
pub fn extract_url(line: &str) -> (url: Option<String>)
    ensures
        match url {
            Some(u) => url_of(line@) == Some(u@),
            None => url_of(line@) is None,
        },
{
    let all = chars_of(line);
    let (from, to) = trim_bounds(&all);
    let mut chars: Vec<char> = Vec::new();
    let mut i: usize = from;
    while i < to
        invariant
            from <= i <= to <= all.len(),
            chars@ == all@.subrange(from as int, i as int),
        decreases to - i,
    {
        chars.push(all[i]);
        assert(all@.subrange(from as int, i + 1) =~= all@.subrange(from as int, i as int).push(
            all@[i as int],
        ));
        i += 1;
    }
    let n: usize = chars.len();
    if n == 0 || chars[0] != '[' {
        return None;
    }
    if chars[n - 1] != ']' && !(n > 1 && chars[n - 2] == ']' && chars[n - 1] == ',') {
        return None;
    }
    match find_char(&chars, '"', 0) {
        Some(open) => match find_char(&chars, '"', open + 1) {
            Some(close) => {
                let first: usize = open + 1;
                let ghost url = chars@.subrange(first as int, close as int);
                if close - first >= 4 && chars[first] == 'h' && chars[first + 1] == 't'
                    && chars[first + 2] == 't' && chars[first + 3] == 'p' {
                    assert(starts_with_http(url));
                    Some(string_of(&chars, first, close))
                } else {
                    assert(!starts_with_http(url));
                    None
                }
            },
            None => None,
        },
        None => None,
    }
}

/// An address starts with `http` and holds no double quote.
pub proof fn law_url_shape(line: Seq<char>)
    ensures
        url_of(line) matches Some(url) ==> starts_with_http(url) && !url.contains('"'),
{
    let t = trimmed(line);
    lemma_find(t, '"', 0);
    match find(t, '"', 0) {
        Some(open) => {
            lemma_find(t, '"', open + 1);
        },
        None => {},
    }
}

} // verus!
