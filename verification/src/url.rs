//! The public address of a tunnel, as the server prints it.
use vstd::prelude::*;

use crate::text::{self, chars_of, find, is_control, is_whitespace};

verus! {

/// The scheme that a public address starts with.
pub const SCHEME: &'static str = "https://";

/// `c` cannot be part of an address: white space, a control character or a quotation mark.
pub open spec fn ends_url(c: char) -> bool {
    ||| text::is_white(c)
    ||| text::is_ctrl(c)
    ||| c == '"'
    ||| c == '\''
    ||| c == '`'
}

/// An address stands in `line` from `start` up to `end`: it starts with the first scheme of the
/// line and reaches to the first character that cannot be part of it, or to the end of the line.
pub open spec fn url_span(line: Seq<char>, start: int, end: int) -> bool {
    &&& text::first_at(line, SCHEME@, start)
    &&& start <= end <= line.len()
    &&& forall|k: int| start <= k < end ==> !ends_url(#[trigger] line[k])
    &&& end < line.len() ==> ends_url(line[end])
}

/// The address in `line`, if there is one.
pub open spec fn url_in(line: Seq<char>) -> Option<Seq<char>> {
    if exists|start: int, end: int| url_span(line, start, end) {
        let (start, end) = choose|start: int, end: int| url_span(line, start, end);
        Some(line.subrange(start, end))
    } else {
        None
    }
}

/// What stands in a span is the address of the line.
pub proof fn lemma_url_in(line: Seq<char>, start: int, end: int)
    requires
        url_span(line, start, end),
    ensures
        url_in(line) == Some(line.subrange(start, end)),
{
    let (s, e) = choose|s: int, e: int| url_span(line, s, e);
    assert(url_span(line, s, e));
    text::lemma_first_unique(line, SCHEME@, start, s);
    if e < end {
        assert(ends_url(line[e]));
    } else if end < e {
        assert(ends_url(line[end]));
    }
}

/// Finds the address in a line of output: from the first `https://` up to the first white space,
/// control character or quotation mark.
pub fn extract_url(line: &str) -> (r: Option<String>)
    ensures
        match r {
            Some(url) => url_in(line@) == Some(url@),
            None => url_in(line@) is None,
        },
        r is Some <==> text::occurs_in(line@, SCHEME@),
{
    let v = chars_of(line);
    match find(&v, SCHEME) {
        None => {
            None
        },
        Some(start) => {
            let mut end: usize = start;
            while end < v.len() && !(is_whitespace(v[end]) || is_control(v[end]) || v[end] == '"'
                || v[end] == '\'' || v[end] == '`')
                invariant
                    start <= end <= v@.len(),
                    forall|k: int| start <= k < end ==> !ends_url(#[trigger] v@[k]),
                decreases v.len() - end,
            {
                end += 1;
            }
            proof {
                lemma_url_in(line@, start as int, end as int);
            }
            Some(line.substring_char(start, end).to_string())
        },
    }
}

proof fn lemma_span_covers_scheme(line: Seq<char>, start: int, end: int)
    requires
        url_span(line, start, end),
    ensures
        SCHEME@.len() == 8,
        end - start >= 8,
        line.subrange(start, end).take(8) == SCHEME@,
        forall|k: int| 0 <= k < 8 ==> !ends_url(#[trigger] SCHEME@[k]),
{
    reveal_strlit("https://");
    let head = line.subrange(start, start + 8);
    assert(head == SCHEME@);
    if end < start + 8 {
        assert(line[end] == head[end - start]);
    }
    assert(line.subrange(start, end).take(8) =~= head);
}

/// An address starts with the scheme, holds nothing that would end it, and stands in its line.
pub proof fn lemma_url_shape(line: Seq<char>)
    requires
        url_in(line) is Some,
    ensures
        SCHEME@.is_prefix_of(url_in(line)->0),
        forall|k: int| 0 <= k < url_in(line)->0.len() ==> !ends_url(#[trigger] url_in(line)->0[k]),
        text::occurs_in(line, url_in(line)->0),
{
    let (start, end) = choose|start: int, end: int| url_span(line, start, end);
    lemma_span_covers_scheme(line, start, end);
    assert(text::occurs_at(line, url_in(line)->0, start));
}

/// An address has no white space around it to trim away.
pub proof fn lemma_url_is_trimmed(line: Seq<char>)
    requires
        url_in(line) is Some,
    ensures
        text::trimmed(url_in(line)->0) == url_in(line)->0,
{
    lemma_url_shape(line);
    reveal_strlit("https://");
    let url = url_in(line)->0;
    assert(!ends_url(url[0]));
    assert(!ends_url(url[url.len() - 1]));
}

/// An address on a line of its own is found whole.
pub proof fn lemma_url_of_url(line: Seq<char>)
    requires
        url_in(line) is Some,
    ensures
        url_in(url_in(line)->0) == url_in(line),
{
    lemma_url_shape(line);
    let (start, end) = choose|start: int, end: int| url_span(line, start, end);
    lemma_span_covers_scheme(line, start, end);
    let url = url_in(line)->0;
    assert(url.subrange(0, 8) =~= url.take(8));
    assert(text::first_at(url, SCHEME@, 0));
    assert(url_span(url, 0, url.len() as int));
    lemma_url_in(url, 0, url.len() as int);
    assert(url.subrange(0, url.len() as int) =~= url);
}

/// The address is as long as it can be. In a line where `https://` stands first after `p`, the
/// address goes on with all of `t`, where `t` holds no white space, no control character and none
/// of the three quotation marks, and where the line ends after it or goes on with one of these.
pub proof fn lemma_address_is_whole(p: Seq<char>, t: Seq<char>, rest: Seq<char>)
    requires
        forall|j: int|
            0 <= j < p.len() ==> #[trigger] (p + "https://"@ + t + rest).subrange(j, j + 8)
                != "https://"@,
        forall|k: int|
            0 <= k < t.len() ==> {
                let c = #[trigger] t[k];
                &&& !text::is_white(c)
                &&& !text::is_ctrl(c)
                &&& c != '"'
                &&& c != '\''
                &&& c != '`'
            },
        rest.len() > 0 ==> {
            ||| text::is_white(rest[0])
            ||| text::is_ctrl(rest[0])
            ||| rest[0] == '"'
            ||| rest[0] == '\''
            ||| rest[0] == '`'
        },
    ensures
        url_in(p + "https://"@ + t + rest) == Some("https://"@ + t),
{
    reveal_strlit("https://");
    let line = p + "https://"@ + t + rest;
    let start = p.len() as int;
    let end = start + 8 + t.len();
    assert(line.subrange(start, start + 8) =~= "https://"@);
    assert(text::occurs_at(line, SCHEME@, start));
    assert forall|j: int| 0 <= j < start implies !text::occurs_at(line, SCHEME@, j) by {
        assert(line.subrange(j, j + 8) != "https://"@);
    }
    assert forall|k: int| start <= k < end implies !ends_url(#[trigger] line[k]) by {
        if k < start + 8 {
            assert(line[k] == "https://"@[k - start]);
        } else {
            assert(line[k] == t[k - start - 8]);
        }
    }
    if end < line.len() {
        assert(line[end] == rest[0]);
    }
    assert(url_span(line, start, end));
    lemma_url_in(line, start, end);
    assert(line.subrange(start, end) =~= "https://"@ + t);
}

/// A line in which `https://` stands nowhere has no address; any other line has one.
pub proof fn lemma_address_needs_scheme(line: Seq<char>)
    ensures
        url_in(line) is Some <==> exists|j: int|
            0 <= j <= line.len() - 8 && #[trigger] line.subrange(j, j + 8) == "https://"@,
{
    reveal_strlit("https://");
    if url_in(line) is Some {
        let (start, end) = choose|start: int, end: int| url_span(line, start, end);
        assert(line.subrange(start, start + 8) == "https://"@);
    }
    if exists|j: int|
        0 <= j <= line.len() - 8 && #[trigger] line.subrange(j, j + 8) == "https://"@ {
        let j = choose|j: int|
            0 <= j <= line.len() - 8 && #[trigger] line.subrange(j, j + 8) == "https://"@;
        assert(text::occurs_at(line, SCHEME@, j));
        let start = lemma_leftmost_place(line, j);
        let end = lemma_end_of_address(line, start, start);
        lemma_url_in(line, start, end);
    }
}

proof fn lemma_leftmost_place(line: Seq<char>, j: int) -> (start: int)
    requires
        text::occurs_at(line, SCHEME@, j),
    ensures
        text::first_at(line, SCHEME@, start),
    decreases j,
{
    if exists|i: int| 0 <= i < j && text::occurs_at(line, SCHEME@, i) {
        let i = choose|i: int| 0 <= i < j && text::occurs_at(line, SCHEME@, i);
        lemma_leftmost_place(line, i)
    } else {
        j
    }
}

proof fn lemma_end_of_address(line: Seq<char>, start: int, at: int) -> (end: int)
    requires
        text::first_at(line, SCHEME@, start),
        start <= at <= line.len(),
        forall|k: int| start <= k < at ==> !ends_url(#[trigger] line[k]),
    ensures
        url_span(line, start, end),
    decreases line.len() - at,
{
    if at < line.len() && !ends_url(line[at]) {
        lemma_end_of_address(line, start, at + 1)
    } else {
        at
    }
}

} // verus!
