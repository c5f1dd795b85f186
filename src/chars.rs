//! Character classes, and runs of characters of one class, used by the
//! command extractor and the query grammar.

use vstd::prelude::*;

verus! {

/// The Unicode `White_Space` property, as used by `char::is_whitespace`
/// and `str::trim`.
pub open spec fn is_space(c: char) -> bool {
    let u = c as u32;
    (0x09 <= u && u <= 0x0d) || u == 0x20 || u == 0x85 || u == 0xa0 || u == 0x1680
        || (0x2000 <= u && u <= 0x200a) || u == 0x2028 || u == 0x2029 || u == 0x202f
        || u == 0x205f || u == 0x3000
}

/// An ASCII decimal digit.
pub open spec fn is_digit(c: char) -> bool {
    '0' <= c && c <= '9'
}

/// An ASCII letter, upper or lower case.
pub open spec fn is_letter(c: char) -> bool {
    ('a' <= c && c <= 'z') || ('A' <= c && c <= 'Z')
}

/// Whether `c` is white space.
pub fn space(c: char) -> (r: bool)
    ensures
        r == is_space(c),
{
    let u = c as u32;
    (0x09 <= u && u <= 0x0d) || u == 0x20 || u == 0x85 || u == 0xa0 || u == 0x1680
        || (0x2000 <= u && u <= 0x200a) || u == 0x2028 || u == 0x2029 || u == 0x202f
        || u == 0x205f || u == 0x3000
}

/// Whether `c` is an ASCII decimal digit.
pub fn digit(c: char) -> (r: bool)
    ensures
        r == is_digit(c),
{
    '0' <= c && c <= '9'
}

/// Whether `c` is an ASCII letter.
pub fn letter(c: char) -> (r: bool)
    ensures
        r == is_letter(c),
{
    ('a' <= c && c <= 'z') || ('A' <= c && c <= 'Z')
}

/// The classes of character runs that the parser steps over.
#[derive(Clone, Copy, PartialEq, Eq, Structural)]
pub enum Run {
    Space,
    Digit,
    Letter,
    Visible,
}

pub open spec fn in_run(c: char, k: Run) -> bool {
    match k {
        Run::Space => is_space(c),
        Run::Digit => is_digit(c),
        Run::Letter => is_letter(c),
        Run::Visible => !is_space(c),
    }
}

/// Every character of `s[i..j]` belongs to `k`.
pub open spec fn all_in(s: Seq<char>, i: int, j: int, k: Run) -> bool {
    forall|p: int| i <= p < j ==> #[trigger] in_run(s[p], k)
}

/// The end of the run of class `k` that starts at `i`.
pub open spec fn span_end(s: Seq<char>, i: int, k: Run) -> int
    decreases s.len() - i,
{
    if 0 <= i < s.len() && in_run(s[i], k) {
        span_end(s, i + 1, k)
    } else {
        i
    }
}

pub proof fn lemma_span(s: Seq<char>, i: int, k: Run)
    requires
        0 <= i <= s.len(),
    ensures
        i <= span_end(s, i, k) <= s.len(),
        all_in(s, i, span_end(s, i, k), k),
        span_end(s, i, k) < s.len() ==> !in_run(s[span_end(s, i, k)], k),
    decreases s.len() - i,
{
    if i < s.len() && in_run(s[i], k) {
        lemma_span(s, i + 1, k);
    }
}

pub proof fn lemma_span_end_at(s: Seq<char>, i: int, j: int, k: Run)
    requires
        0 <= i <= j <= s.len(),
        all_in(s, i, j, k),
        j == s.len() || !in_run(s[j], k),
    ensures
        span_end(s, i, k) == j,
    decreases j - i,
{
    if i < j {
        assert(in_run(s[i], k));
        lemma_span_end_at(s, i + 1, j, k);
    }
}


/// Whether `c` belongs to the class `k`.
pub fn belongs(c: char, k: Run) -> (r: bool)
    ensures
        r == in_run(c, k),
{
    match k {
        Run::Space => space(c),
        Run::Digit => digit(c),
        Run::Letter => letter(c),
        Run::Visible => !space(c),
    }
}

/// The characters of `text`, one by one.
pub fn char_vec(text: &str) -> (v: Vec<char>)
    ensures
        v@ == text@,
{
    let mut v: Vec<char> = Vec::new();
    for c in it: text.chars()
        invariant
            v@ == it.seq().subrange(0, it.index() as int),
    {
        v.push(c);
    }
    v
}

/// The end of the run of class `k` in `s` that starts at `i`.
pub fn skip(s: &Vec<char>, i: usize, k: Run) -> (j: usize)
    requires
        i <= s.len(),
    ensures
        i <= j <= s.len(),
        j == span_end(s@, i as int, k),
{
    let mut j = i;
    while j < s.len() && belongs(s[j], k)
        invariant
            i <= j <= s.len(),
            span_end(s@, j as int, k) == span_end(s@, i as int, k),
        decreases s.len() - j,
    {
        j = j + 1;
    }
    j
}

} // verus!
