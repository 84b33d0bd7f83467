//! Text as a sequence of characters: searching, trimming, and decimal numbers.
use vstd::prelude::*;

verus! {

/// The characters with the Unicode `White_Space` property.
pub open spec fn is_white(c: char) -> bool {
    let u = c as u32;
    ||| 0x09 <= u <= 0x0d
    ||| u == 0x20
    ||| u == 0x85
    ||| u == 0xa0
    ||| u == 0x1680
    ||| 0x2000 <= u <= 0x200a
    ||| u == 0x2028
    ||| u == 0x2029
    ||| u == 0x202f
    ||| u == 0x205f
    ||| u == 0x3000
}

/// The control characters: the Unicode general category `Cc`.
pub open spec fn is_ctrl(c: char) -> bool {
    let u = c as u32;
    u <= 0x1f || 0x7f <= u <= 0x9f
}

/// Tells whether `c` is white space.
pub fn is_whitespace(c: char) -> (r: bool)
    ensures
        r == is_white(c),
{
    let u: u32 = c as u32;
    (0x09 <= u && u <= 0x0d) || u == 0x20 || u == 0x85 || u == 0xa0 || u == 0x1680
        || (0x2000 <= u && u <= 0x200a) || u == 0x2028 || u == 0x2029 || u == 0x202f || u == 0x205f
        || u == 0x3000
}

/// Tells whether `c` is a control character.
pub fn is_control(c: char) -> (r: bool)
    ensures
        r == is_ctrl(c),
{
    let u: u32 = c as u32;
    u <= 0x1f || (0x7f <= u && u <= 0x9f)
}

/// `pattern` stands in `text` at position `i`.
pub open spec fn occurs_at(text: Seq<char>, pattern: Seq<char>, i: int) -> bool {
    &&& 0 <= i
    &&& i + pattern.len() <= text.len()
    &&& text.subrange(i, i + pattern.len()) == pattern
}

/// `i` is the leftmost position of `pattern` in `text`.
pub open spec fn first_at(text: Seq<char>, pattern: Seq<char>, i: int) -> bool {
    &&& occurs_at(text, pattern, i)
    &&& forall|j: int| 0 <= j < i ==> !occurs_at(text, pattern, j)
}

/// `pattern` stands somewhere in `text`.
pub open spec fn occurs_in(text: Seq<char>, pattern: Seq<char>) -> bool {
    exists|i: int| occurs_at(text, pattern, i)
}

/// The characters of `s`, in order.
pub fn chars_of(s: &str) -> (v: Vec<char>)
    ensures
        v@ == s@,
{
    let mut v: Vec<char> = Vec::new();
    for c in it: s.chars()
        invariant
            it.seq() == s@,
            v@ == s@.take(it.index() as int),
    {
        v.push(c);
    }
    v
}

/// Whether `pattern` stands in `text` at position `at`.
fn matches_at(text: &Vec<char>, pattern: &Vec<char>, at: usize) -> (r: bool)
    ensures
        r == occurs_at(text@, pattern@, at as int),
{
    if text.len() < pattern.len() || text.len() - pattern.len() < at {
        return false;
    }
    let mut k: usize = 0;
    while k < pattern.len()
        invariant
            k <= pattern.len(),
            at + pattern.len() <= text.len(),
            forall|j: int| 0 <= j < k ==> text@[at + j] == pattern@[j],
        decreases pattern.len() - k,
    {
        if text[at + k] != pattern[k] {
            assert(text@.subrange(at as int, at + pattern@.len())[k as int] != pattern@[k as int]);
            return false;
        }
        k += 1;
    }
    assert(text@.subrange(at as int, at + pattern@.len()) =~= pattern@);
    true
}

/// The leftmost position, counted in characters, of `pattern` in `text`.
pub fn find(text: &Vec<char>, pattern: &str) -> (r: Option<usize>)
    ensures
        match r {
            Some(i) => first_at(text@, pattern@, i as int),
            None => !occurs_in(text@, pattern@),
        },
{
    let p = chars_of(pattern);
    let mut i: usize = 0;
    while i < text.len()
        invariant
            p@ == pattern@,
            i <= text.len(),
            forall|j: int| 0 <= j < i ==> !occurs_at(text@, pattern@, j),
        decreases text.len() - i,
    {
        if matches_at(text, &p, i) {
            return Some(i);
        }
        i += 1;
    }
    if matches_at(text, &p, i) {
        return Some(i);
    }
    None
}

/// Tells whether `pattern` stands somewhere in `text`.
pub fn contains(text: &str, pattern: &str) -> (r: bool)
    ensures
        r == occurs_in(text@, pattern@),
{
    match find(&chars_of(text), pattern) {
        Some(_) => true,
        None => false,
    }
}

/// A text has at most one leftmost position of a pattern.
pub proof fn lemma_first_unique(text: Seq<char>, pattern: Seq<char>, i: int, j: int)
    requires
        first_at(text, pattern, i),
        first_at(text, pattern, j),
    ensures
        i == j,
{
}

/// `s` without its leading white space.
pub open spec fn trim_start(s: Seq<char>) -> Seq<char>
    decreases s.len(),
{
    if s.len() > 0 && is_white(s[0]) {
        trim_start(s.drop_first())
    } else {
        s
    }
}

/// `s` without its trailing white space.
pub open spec fn trim_end(s: Seq<char>) -> Seq<char>
    decreases s.len(),
{
    if s.len() > 0 && is_white(s.last()) {
        trim_end(s.drop_last())
    } else {
        s
    }
}

/// `s` without white space at either end.
pub open spec fn trimmed(s: Seq<char>) -> Seq<char> {
    trim_end(trim_start(s))
}

/// A copy of `s` without white space at either end.
pub fn trim(s: &str) -> (r: String)
    ensures
        r@ == trimmed(s@),
{
    let v = chars_of(s);
    let n: usize = v.len();
    let mut lo: usize = 0;
    assert(s@.subrange(0, n as int) =~= s@);
    while lo < n && is_whitespace(v[lo])
        invariant
            n == v@.len(),
            v@ == s@,
            lo <= n,
            trim_start(s@) == trim_start(s@.subrange(lo as int, n as int)),
        decreases n - lo,
    {
        assert(s@.subrange(lo as int, n as int).drop_first() =~= s@.subrange(lo + 1, n as int));
        lo += 1;
    }
    let mut hi: usize = n;
    while lo < hi && is_whitespace(v[hi - 1])
        invariant
            n == v@.len(),
            v@ == s@,
            lo <= hi <= n,
            trimmed(s@) == trim_end(s@.subrange(lo as int, hi as int)),
        decreases hi - lo,
    {
        assert(s@.subrange(lo as int, hi as int).drop_last() =~= s@.subrange(lo as int, hi - 1));
        hi -= 1;
    }
    s.substring_char(lo, hi).to_string()
}

/// The texts of a list of strings.
pub open spec fn texts(v: Seq<String>) -> Seq<Seq<char>> {
    v.map_values(|s: String| s@)
}

/// The text of an optional string.
pub open spec fn opt_text(s: Option<String>) -> Option<Seq<char>> {
    match s {
        Some(s) => Some(s@),
        None => None,
    }
}

/// A copy of an optional string.
pub fn clone_opt(s: &Option<String>) -> (r: Option<String>)
    ensures
        opt_text(r) == opt_text(*s),
{
    match s {
        Some(s) => Some(s.clone()),
        None => None,
    }
}

/// `a` followed by `b`.
pub fn join(a: &str, b: &str) -> (r: String)
    ensures
        r@ == a@ + b@,
{
    a.to_string().concat(b)
}

/// White space is the tabulator, the line breaks, the spaces and the separators of Unicode, and
/// nothing else.
pub proof fn lemma_white_space(c: char)
    ensures
        is_white(c) <==> {
            ||| c == '\t' || c == '\n' || c == '\u{b}' || c == '\u{c}' || c == '\r' || c == ' '
            ||| c == '\u{85}' || c == '\u{a0}' || c == '\u{1680}'
            ||| c == '\u{2000}' || c == '\u{2001}' || c == '\u{2002}' || c == '\u{2003}'
            ||| c == '\u{2004}' || c == '\u{2005}' || c == '\u{2006}' || c == '\u{2007}'
            ||| c == '\u{2008}' || c == '\u{2009}' || c == '\u{200a}'
            ||| c == '\u{2028}' || c == '\u{2029}' || c == '\u{202f}' || c == '\u{205f}'
            ||| c == '\u{3000}'
        },
{
}

/// The control characters are the first thirty-two of ASCII, and those from delete up to the last
/// of the second set.
pub proof fn lemma_control_characters(c: char)
    ensures
        is_ctrl(c) <==> (c <= '\u{1f}' || ('\u{7f}' <= c && c <= '\u{9f}')),
{
}

/// A text that is put together around a pattern holds the pattern.
pub proof fn lemma_joined_text_holds(before: Seq<char>, pattern: Seq<char>, after: Seq<char>)
    ensures
        occurs_in(before + pattern + after, pattern),
{
    let n = before.len() as int;
    assert((before + pattern + after).subrange(n, n + pattern.len()) =~= pattern);
    assert(occurs_at(before + pattern + after, pattern, n));
}

/// A text that holds a pattern can be cut into what stands before it, the pattern, and what stands
/// after it.
pub proof fn lemma_holding_text_is_cut(text: Seq<char>, pattern: Seq<char>) -> (r: (
    Seq<char>,
    Seq<char>,
))
    requires
        occurs_in(text, pattern),
    ensures
        text == r.0 + pattern + r.1,
{
    let i = choose|i: int| occurs_at(text, pattern, i);
    let before = text.take(i);
    let after = text.skip(i + pattern.len());
    assert(text.subrange(i, i + pattern.len()) == pattern);
    assert(text =~= before + text.subrange(i, i + pattern.len()) + after);
    (before, after)
}

/// What comes before the leftmost place of a pattern is the shortest of all beginnings after which
/// the pattern follows.
pub proof fn lemma_leftmost(text: Seq<char>, pattern: Seq<char>, i: int, before: Seq<char>, after: Seq<char>)
    requires
        first_at(text, pattern, i),
        text == before + pattern + after,
    ensures
        0 <= i <= before.len(),
        text.take(i) + pattern == text.take(i + pattern.len()),
{
    let n = before.len() as int;
    assert(text.subrange(n, n + pattern.len()) =~= pattern);
    assert(occurs_at(text, pattern, n));
    assert(text.take(i) + text.subrange(i, i + pattern.len()) =~= text.take(i + pattern.len()));
}

proof fn lemma_trim_start_skips(a: Seq<char>, s: Seq<char>)
    requires
        forall|i: int| 0 <= i < a.len() ==> is_white(#[trigger] a[i]),
    ensures
        trim_start(a + s) == trim_start(s),
    decreases a.len(),
{
    if a.len() == 0 {
        assert(a + s =~= s);
    } else {
        assert(is_white(a[0]));
        assert((a + s).drop_first() =~= a.drop_first() + s);
        assert forall|i: int| 0 <= i < a.drop_first().len() implies is_white(
            #[trigger] a.drop_first()[i],
        ) by {
            assert(is_white(a[i + 1]));
        }
        lemma_trim_start_skips(a.drop_first(), s);
    }
}

proof fn lemma_trim_end_skips(s: Seq<char>, b: Seq<char>)
    requires
        forall|i: int| 0 <= i < b.len() ==> is_white(#[trigger] b[i]),
    ensures
        trim_end(s + b) == trim_end(s),
    decreases b.len(),
{
    if b.len() == 0 {
        assert(s + b =~= s);
    } else {
        assert(is_white(b[b.len() - 1]));
        assert((s + b).drop_last() =~= s + b.drop_last());
        lemma_trim_end_skips(s, b.drop_last());
    }
}

/// Trimming undoes the white space that was put around a text: of a text that neither starts nor
/// ends with white space, whatever white space surrounds it, just that text is left.
pub proof fn lemma_trim_removes_what_surrounds(a: Seq<char>, s: Seq<char>, b: Seq<char>)
    requires
        forall|i: int| 0 <= i < a.len() ==> is_white(#[trigger] a[i]),
        forall|i: int| 0 <= i < b.len() ==> is_white(#[trigger] b[i]),
        s.len() > 0 ==> !is_white(s[0]) && !is_white(s.last()),
    ensures
        trimmed(a + s + b) == s,
{
    if s.len() == 0 {
        assert(a + s + b =~= a + b);
        let all = a + b;
        assert(all + Seq::<char>::empty() =~= all);
        lemma_trim_start_skips(all, Seq::<char>::empty());
        assert(trim_start(Seq::<char>::empty()) =~= s);
    } else {
        assert(a + s + b =~= a + (s + b));
        lemma_trim_start_skips(a, s + b);
        assert((s + b)[0] == s[0]);
        lemma_trim_end_skips(s, b);
    }
}

/// The texts of a list stand for its strings one by one; an optional string has a text just where
/// it is there.
pub proof fn lemma_texts(v: Seq<String>, s: String)
    ensures
        texts(v).len() == v.len(),
        forall|i: int| 0 <= i < v.len() ==> #[trigger] texts(v)[i] == v[i]@,
        opt_text(Some(s)) == Some(s@),
        opt_text(None) == None::<Seq<char>>,
{
}

} // verus!
