//! The exchange-query grammar and its parser.
//!
//! A query is, with white space allowed around it,
//! `{amount}{from}{separator}{to}` where
//! - the amount is empty, a run of ASCII digits, or two such runs around a `.`,
//!   followed by optional white space;
//! - `from` is one to four ASCII letters;
//! - the separator is white space around a single `=`, or white space alone
//!   (at least one character of it);
//! - `to` is an ASCII letter followed by at most four characters that are not
//!   white space.

use vstd::prelude::*;
use crate::chars::{
    all_in, char_vec, is_digit, is_letter, is_space, lemma_span, lemma_span_end_at, letter, skip,
    in_run, span_end, Run,
};

verus! {

/// `s[i..j]` is an amount: empty, or digits with at most one `.` that is
/// neither first nor last.
pub open spec fn amount_at(s: Seq<char>, i: int, j: int) -> bool {
    i == j || {
        &&& is_digit(s[i])
        &&& is_digit(s[j - 1])
        &&& forall|p: int| i <= p < j ==> is_digit(#[trigger] s[p]) || s[p] == '.'
        &&& forall|p: int, q: int| i <= p < q < j && #[trigger] s[p] == '.' ==> #[trigger] s[q] != '.'
    }
}

/// `s[i..j]` separates the two codes: white space around at most one `=`,
/// and not empty.
pub open spec fn separator_at(s: Seq<char>, i: int, j: int) -> bool {
    &&& i < j
    &&& forall|p: int| i <= p < j ==> is_space(#[trigger] s[p]) || s[p] == '='
    &&& forall|p: int, q: int| i <= p < q < j && #[trigger] s[p] == '=' ==> #[trigger] s[q] != '='
}

/// `s` is a query whose amount is `s[a0..a1]`, whose source code is
/// `s[f0..f1]` and whose target code is `s[t0..t1]`.
pub open spec fn query_at(s: Seq<char>, a0: int, a1: int, f0: int, f1: int, t0: int, t1: int) -> bool {
    &&& 0 <= a0 <= a1 <= f0 < f1 < t0 < t1 <= s.len()
    &&& all_in(s, 0, a0, Run::Space)
    &&& amount_at(s, a0, a1)
    &&& all_in(s, a1, f0, Run::Space)
    &&& all_in(s, f0, f1, Run::Letter)
    &&& f1 - f0 <= 4
    &&& separator_at(s, f1, t0)
    &&& is_letter(s[t0])
    &&& all_in(s, t0, t1, Run::Visible)
    &&& t1 - t0 <= 5
    &&& all_in(s, t1, s.len() as int, Run::Space)
}

/// `s` is a query with the given amount, source and target codes.
pub open spec fn parses_to(s: Seq<char>, amount: Seq<char>, from: Seq<char>, to: Seq<char>) -> bool {
    exists|a0: int, a1: int, f0: int, f1: int, t0: int, t1: int|
        #[trigger] query_at(s, a0, a1, f0, f1, t0, t1)
        && amount == s.subrange(a0, a1)
        && from == s.subrange(f0, f1)
        && to == s.subrange(t0, t1)
}

/// `s` is a query at all.
pub open spec fn is_query(s: Seq<char>) -> bool {
    exists|a0: int, a1: int, f0: int, f1: int, t0: int, t1: int|
        #[trigger] query_at(s, a0, a1, f0, f1, t0, t1)
}

/// `w` is white space only, possibly none.
pub open spec fn is_blank(w: Seq<char>) -> bool {
    all_in(w, 0, w.len() as int, Run::Space)
}

/// `a` is an amount: empty, digits, or digits around one `.`.
pub open spec fn is_amount(a: Seq<char>) -> bool {
    amount_at(a, 0, a.len() as int)
}

/// `f` can be a source code: one to four ASCII letters.
pub open spec fn is_source(f: Seq<char>) -> bool {
    1 <= f.len() <= 4 && all_in(f, 0, f.len() as int, Run::Letter)
}

/// `w` can separate the codes: white space around at most one `=`, not empty.
pub open spec fn is_separator(w: Seq<char>) -> bool {
    separator_at(w, 0, w.len() as int)
}

/// `t` can be a target code: an ASCII letter and at most four more
/// characters that are not white space.
pub open spec fn is_target(t: Seq<char>) -> bool {
    1 <= t.len() <= 5 && is_letter(t[0]) && all_in(t, 0, t.len() as int, Run::Visible)
}

/// Where the parser finds amount, source and target in `s`, if anywhere.
spec fn scan(s: Seq<char>) -> Option<(int, int, int, int, int, int)> {
    let n = s.len() as int;
    let a0 = span_end(s, 0, Run::Space);
    let d = span_end(s, a0, Run::Digit);
    let has_point = a0 < d < n && s[d] == '.';
    let e = span_end(s, d + 1, Run::Digit);
    let a1 = if has_point { e } else { d };
    let f0 = span_end(s, a1, Run::Space);
    let f1 = span_end(s, f0, Run::Letter);
    let g = span_end(s, f1, Run::Space);
    let eq = g < n && s[g] == '=';
    let t0 = if eq { span_end(s, g + 1, Run::Space) } else { g };
    let t1 = span_end(s, t0, Run::Visible);
    if (has_point && e == d + 1) || f1 == f0 || f1 - f0 > 4 || (!eq && g == f1) || t0 >= n
        || !is_letter(s[t0]) || t1 - t0 > 5 || span_end(s, t1, Run::Space) != n {
        None
    } else {
        Some((a0, a1, f0, f1, t0, t1))
    }
}

proof fn lemma_scan_sound(s: Seq<char>)
    requires
        scan(s) is Some,
    ensures
        ({
            let (a0, a1, f0, f1, t0, t1) = scan(s)->0;
            query_at(s, a0, a1, f0, f1, t0, t1)
        }),
{
    let n = s.len() as int;
    let a0 = span_end(s, 0, Run::Space);
    lemma_span(s, 0, Run::Space);
    let d = span_end(s, a0, Run::Digit);
    lemma_span(s, a0, Run::Digit);
    let has_point = a0 < d < n && s[d] == '.';
    let e = span_end(s, d + 1, Run::Digit);
    if has_point {
        lemma_span(s, d + 1, Run::Digit);
    }
    let a1 = if has_point { e } else { d };
    let f0 = span_end(s, a1, Run::Space);
    lemma_span(s, a1, Run::Space);
    let f1 = span_end(s, f0, Run::Letter);
    lemma_span(s, f0, Run::Letter);
    let g = span_end(s, f1, Run::Space);
    lemma_span(s, f1, Run::Space);
    let eq = g < n && s[g] == '=';
    if eq {
        lemma_span(s, g + 1, Run::Space);
    }
    let t0 = if eq { span_end(s, g + 1, Run::Space) } else { g };
    let t1 = span_end(s, t0, Run::Visible);
    lemma_span(s, t0, Run::Visible);
    lemma_span(s, t1, Run::Space);
    assert(in_run(s[a1 as int], Run::Digit) ==> false) by {
        if a1 < f0 {
            assert(in_run(s[a1 as int], Run::Space));
        } else {
            assert(in_run(s[f0 as int], Run::Letter));
        }
    }
    if has_point {
        assert(in_run(s[a0], Run::Digit));
        assert(in_run(s[e - 1], Run::Digit));
        assert forall|p: int| a0 <= p < a1 implies is_digit(#[trigger] s[p]) || s[p] == '.' by {
            if p < d {
                assert(in_run(s[p], Run::Digit));
            } else if p > d {
                assert(in_run(s[p], Run::Digit));
            }
        }
        assert forall|p: int, q: int| a0 <= p < q < a1 && #[trigger] s[p] == '.' implies #[trigger] s[q] != '.' by {
            if p < d {
                assert(in_run(s[p], Run::Digit));
            } else if p > d {
                assert(in_run(s[p], Run::Digit));
            } else {
                assert(in_run(s[q], Run::Digit));
            }
        }
    } else if a0 < d {
        assert(in_run(s[a0], Run::Digit));
        assert(in_run(s[d - 1], Run::Digit));
        assert forall|p: int| a0 <= p < a1 implies is_digit(#[trigger] s[p]) || s[p] == '.' by {
            assert(in_run(s[p], Run::Digit));
        }
        assert forall|p: int, q: int| a0 <= p < q < a1 && #[trigger] s[p] == '.' implies #[trigger] s[q] != '.' by {
            assert(in_run(s[p], Run::Digit));
        }
    }
    assert(amount_at(s, a0, a1));
    assert forall|p: int| f1 <= p < t0 implies is_space(#[trigger] s[p]) || s[p] == '=' by {
        if p < g {
            assert(in_run(s[p], Run::Space));
        } else if p > g {
            assert(in_run(s[p], Run::Space));
        }
    }
    assert forall|p: int, q: int| f1 <= p < q < t0 && #[trigger] s[p] == '=' implies #[trigger] s[q] != '=' by {
        if p < g {
            assert(in_run(s[p], Run::Space));
        } else if p > g {
            assert(in_run(s[p], Run::Space));
        } else {
            assert(in_run(s[q], Run::Space));
        }
    }
    assert(separator_at(s, f1, t0));
}

proof fn lemma_scan_complete(s: Seq<char>, a0: int, a1: int, f0: int, f1: int, t0: int, t1: int)
    requires
        query_at(s, a0, a1, f0, f1, t0, t1),
    ensures
        scan(s) is Some,
        ({
            let (b0, b1, g0, g1, u0, u1) = scan(s)->0;
            &&& s.subrange(b0, b1) == s.subrange(a0, a1)
            &&& g0 == f0
            &&& g1 == f1
            &&& u0 == t0
            &&& u1 == t1
        }),
{
    let n = s.len() as int;
    assert(in_run(s[f0], Run::Letter));
    assert(!is_space(s[f0]) && !is_digit(s[f0]));
    // The amount and what precedes the source code.
    let b0 = span_end(s, 0, Run::Space);
    let d = span_end(s, b0, Run::Digit);
    let e = span_end(s, d + 1, Run::Digit);
    let has_point = b0 < d < n && s[d] == '.';
    // The character right after the amount is white space or a letter.
    assert(!is_digit(s[a1]) && s[a1] != '.') by {
        if a1 < f0 {
            assert(in_run(s[a1], Run::Space));
        }
    }
    if a0 == a1 {
        assert(all_in(s, 0, f0, Run::Space)) by {
            assert forall|p: int| 0 <= p < f0 implies #[trigger] in_run(s[p], Run::Space) by {
                if p < a0 {
                    assert(in_run(s[p], Run::Space));
                } else {
                    assert(in_run(s[p], Run::Space));
                }
            }
        }
        lemma_span_end_at(s, 0, f0, Run::Space);
        lemma_span_end_at(s, f0, f0, Run::Digit);
        lemma_span_end_at(s, f0, f0, Run::Space);
        assert(!has_point);
        assert(s.subrange(b0, d) =~= s.subrange(a0, a1));
    } else {
        lemma_span_end_at(s, 0, a0, Run::Space);
        if exists|p: int| a0 <= p < a1 && s[p] == '.' {
            let p = choose|p: int| a0 <= p < a1 && s[p] == '.';
            assert forall|q: int| a0 <= q < p implies #[trigger] in_run(s[q], Run::Digit) by {
                assert(is_digit(s[q]) || s[q] == '.');
            }
            lemma_span_end_at(s, a0, p, Run::Digit);
            assert forall|q: int| p + 1 <= q < a1 implies #[trigger] in_run(s[q], Run::Digit) by {
                assert(is_digit(s[q]) || s[q] == '.');
            }
            lemma_span_end_at(s, p + 1, a1, Run::Digit);
            assert(p != a0 && p != a1 - 1);
            assert(has_point);
        } else {
            assert forall|q: int| a0 <= q < a1 implies #[trigger] in_run(s[q], Run::Digit) by {
                assert(is_digit(s[q]) || s[q] == '.');
            }
            lemma_span_end_at(s, a0, a1, Run::Digit);
            assert(!has_point);
        }
        lemma_span_end_at(s, a1, f0, Run::Space);
    }
    let b1 = if has_point { e } else { d };
    assert(span_end(s, b1, Run::Space) == f0);
    // The source code.
    assert(!is_letter(s[f1])) by {
        assert(is_space(s[f1]) || s[f1] == '=');
    }
    lemma_span_end_at(s, f0, f1, Run::Letter);
    // The separator.
    let g = span_end(s, f1, Run::Space);
    assert(!is_space(s[t0]) && s[t0] != '=');
    if exists|p: int| f1 <= p < t0 && s[p] == '=' {
        let p = choose|p: int| f1 <= p < t0 && s[p] == '=';
        assert forall|q: int| f1 <= q < p implies #[trigger] in_run(s[q], Run::Space) by {
            assert(is_space(s[q]) || s[q] == '=');
        }
        lemma_span_end_at(s, f1, p, Run::Space);
        assert forall|q: int| p + 1 <= q < t0 implies #[trigger] in_run(s[q], Run::Space) by {
            assert(is_space(s[q]) || s[q] == '=');
        }
        lemma_span_end_at(s, p + 1, t0, Run::Space);
    } else {
        assert forall|q: int| f1 <= q < t0 implies #[trigger] in_run(s[q], Run::Space) by {
            assert(is_space(s[q]) || s[q] == '=');
        }
        lemma_span_end_at(s, f1, t0, Run::Space);
    }
    // The target code and the white space after it.
    if t1 < n {
        assert(in_run(s[t1], Run::Space));
    }
    lemma_span_end_at(s, t0, t1, Run::Visible);
    lemma_span_end_at(s, t1, n, Run::Space);
}

/// Writing a valid amount, source code and target code with any white space
/// around them and either kind of separator gives a query that parses back
/// to exactly that amount and those codes.
pub proof fn lemma_parts_parse_back(
    lead: Seq<char>,
    amount: Seq<char>,
    gap: Seq<char>,
    from: Seq<char>,
    sep: Seq<char>,
    to: Seq<char>,
    trail: Seq<char>,
)
    requires
        is_blank(lead),
        is_amount(amount),
        is_blank(gap),
        is_source(from),
        is_separator(sep),
        is_target(to),
        is_blank(trail),
    ensures
        parses_to(lead + amount + gap + from + sep + to + trail, amount, from, to),
{
    let s = lead + amount + gap + from + sep + to + trail;
    let a0 = lead.len() as int;
    let a1 = a0 + amount.len();
    let f0 = a1 + gap.len();
    let f1 = f0 + from.len();
    let t0 = f1 + sep.len();
    let t1 = t0 + to.len();
    assert(s.len() == t1 + trail.len());
    assert forall|p: int| 0 <= p < a0 implies #[trigger] in_run(s[p], Run::Space) by {
        assert(s[p] == lead[p]);
    }
    assert forall|p: int| a0 <= p < a1 implies #[trigger] s[p] == amount[p - a0] by {}
    assert forall|p: int| a1 <= p < f0 implies #[trigger] in_run(s[p], Run::Space) by {
        assert(s[p] == gap[p - a1]);
    }
    assert forall|p: int| f0 <= p < f1 implies #[trigger] in_run(s[p], Run::Letter) by {
        assert(s[p] == from[p - f0]);
    }
    assert forall|p: int| f1 <= p < t0 implies #[trigger] s[p] == sep[p - f1] by {}
    assert forall|p: int| t0 <= p < t1 implies #[trigger] in_run(s[p], Run::Visible) by {
        assert(s[p] == to[p - t0]);
    }
    assert forall|p: int| t1 <= p < s.len() implies #[trigger] in_run(s[p], Run::Space) by {
        assert(s[p] == trail[p - t1]);
    }
    if a0 < a1 {
        assert(s[a0] == amount[0]);
        assert(s[a1 - 1] == amount[a1 - 1 - a0]);
        assert forall|p: int| a0 <= p < a1 implies is_digit(#[trigger] s[p]) || s[p] == '.' by {
            assert(s[p] == amount[p - a0]);
        }
        assert forall|p: int, q: int| a0 <= p < q < a1 && #[trigger] s[p] == '.' implies #[trigger] s[q] != '.' by {
            assert(s[p] == amount[p - a0]);
            assert(s[q] == amount[q - a0]);
        }
    }
    assert(amount_at(s, a0, a1));
    assert forall|p: int| f1 <= p < t0 implies is_space(#[trigger] s[p]) || s[p] == '=' by {
        assert(s[p] == sep[p - f1]);
    }
    assert forall|p: int, q: int| f1 <= p < q < t0 && #[trigger] s[p] == '=' implies #[trigger] s[q] != '=' by {
        assert(s[p] == sep[p - f1]);
        assert(s[q] == sep[q - f1]);
    }
    assert(separator_at(s, f1, t0));
    assert(s[t0] == to[0]);
    assert(query_at(s, a0, a1, f0, f1, t0, t1));
    assert(s.subrange(a0, a1) =~= amount);
    assert(s.subrange(f0, f1) =~= from);
    assert(s.subrange(t0, t1) =~= to);
}

/// A query determines its amount, source and target: no text parses in two
/// ways.
pub proof fn lemma_query_unique(
    s: Seq<char>,
    amount: Seq<char>,
    from: Seq<char>,
    to: Seq<char>,
    amount2: Seq<char>,
    from2: Seq<char>,
    to2: Seq<char>,
)
    requires
        parses_to(s, amount, from, to),
        parses_to(s, amount2, from2, to2),
    ensures
        amount == amount2,
        from == from2,
        to == to2,
{
    let (a0, a1, f0, f1, t0, t1) = choose|a0: int, a1: int, f0: int, f1: int, t0: int, t1: int|
        #[trigger] query_at(s, a0, a1, f0, f1, t0, t1) && amount == s.subrange(a0, a1)
            && from == s.subrange(f0, f1) && to == s.subrange(t0, t1);
    let (b0, b1, g0, g1, u0, u1) = choose|a0: int, a1: int, f0: int, f1: int, t0: int, t1: int|
        #[trigger] query_at(s, a0, a1, f0, f1, t0, t1) && amount2 == s.subrange(a0, a1)
            && from2 == s.subrange(f0, f1) && to2 == s.subrange(t0, t1);
    lemma_scan_complete(s, a0, a1, f0, f1, t0, t1);
    lemma_scan_complete(s, b0, b1, g0, g1, u0, u1);
}

proof fn lemma_scan_none(s: Seq<char>)
    requires
        scan(s) is None,
    ensures
        !is_query(s),
{
    if is_query(s) {
        let (a0, a1, f0, f1, t0, t1) = choose|a0: int, a1: int, f0: int, f1: int, t0: int, t1: int|
            #[trigger] query_at(s, a0, a1, f0, f1, t0, t1);
        lemma_scan_complete(s, a0, a1, f0, f1, t0, t1);
    }
}

/// Parses an exchange query into its amount (empty when none is given),
/// source code and target code, each as written.
pub fn parse_exchange_args(text: &str) -> (r: Option<(String, String, String)>)
    ensures
        r is Some <==> is_query(text@),
        r matches Some((amount, from, to)) ==> parses_to(text@, amount@, from@, to@),
{
    let s = char_vec(text);
    let n = s.len();
    let a0 = skip(&s, 0, Run::Space);
    let d = skip(&s, a0, Run::Digit);
    let has_point = a0 < d && d < n && s[d] == '.';
    let mut a1 = d;
    if has_point {
        a1 = skip(&s, d + 1, Run::Digit);
        if a1 == d + 1 {
            proof { lemma_scan_none(s@) }
            return None;
        }
    }
    let f0 = skip(&s, a1, Run::Space);
    let f1 = skip(&s, f0, Run::Letter);
    let g = skip(&s, f1, Run::Space);
    let eq = g < n && s[g] == '=';
    let t0 = if eq { skip(&s, g + 1, Run::Space) } else { g };
    if f1 == f0 || f1 - f0 > 4 || (!eq && g == f1) || t0 >= n || !letter(s[t0]) {
        proof { lemma_scan_none(s@) }
        return None;
    }
    let t1 = skip(&s, t0, Run::Visible);
    if t1 - t0 > 5 || skip(&s, t1, Run::Space) != n {
        proof { lemma_scan_none(s@) }
        return None;
    }
    proof {
        lemma_scan_sound(s@);
    }
    let amount = String::from_str(text.substring_char(a0, a1));
    let from = String::from_str(text.substring_char(f0, f1));
    let to = String::from_str(text.substring_char(t0, t1));
    Some((amount, from, to))
}

} // verus!
