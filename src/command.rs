//! Recognising bot commands: a message is a command when its text up to the
//! first white-space character is one of the registered command words; the
//! arguments are everything after that single white-space character, kept as
//! written.

use vstd::prelude::*;
use crate::chars::{char_vec, in_run, is_space, lemma_span, lemma_span_end_at, skip, span_end, Run};

verus! {

/// The command word that asks for a currency conversion.
pub const EXCHANGE_COMMAND: &'static str = "/ec";

/// The words of `tokens`.
pub open spec fn token_set(tokens: Seq<String>) -> Set<Seq<char>> {
    Set::new(|w: Seq<char>| exists|j: int| 0 <= j < tokens.len() && #[trigger] tokens[j]@ == w)
}

/// A word with no white space in it.
pub open spec fn is_word(w: Seq<char>) -> bool {
    forall|p: int| 0 <= p < w.len() ==> !is_space(#[trigger] w[p])
}

/// The command word and the arguments of `text`, when the text up to its
/// first white space is one of `tokens`.
pub open spec fn command_of(text: Seq<char>, tokens: Set<Seq<char>>) -> Option<(Seq<char>, Seq<char>)> {
    let i = span_end(text, 0, Run::Visible);
    if i < text.len() && tokens.contains(text.subrange(0, i)) {
        Some((text.subrange(0, i), text.subrange(i + 1, text.len() as int)))
    } else {
        None
    }
}

/// Splits `text` into a command word among `tokens` and its arguments, or
/// gives `None` when the text is no such command.
pub fn extract_command<'a>(text: &'a str, tokens: &Vec<String>) -> (r: Option<(&'a str, &'a str)>)
    ensures
        r matches Some((cmd, args)) ==> command_of(text@, token_set(tokens@)) == Some((cmd@, args@)),
        r is None ==> command_of(text@, token_set(tokens@)) is None,
{
    let s = char_vec(text);
    let i = skip(&s, 0, Run::Visible);
    if i == s.len() {
        return None;
    }
    let cmd = text.substring_char(0, i);
    let word = String::from_str(cmd);
    let mut j: usize = 0;
    while j < tokens.len()
        invariant
            j <= tokens.len(),
            i < s.len(),
            s@ == text@,
            i == span_end(text@, 0, Run::Visible),
            cmd@ == text@.subrange(0, i as int),
            word@ == cmd@,
            forall|p: int| 0 <= p < j ==> tokens@[p]@ != word@,
        decreases tokens.len() - j,
    {
        if tokens[j] == word {
            let args = text.substring_char(i + 1, s.len());
            proof {
                assert(tokens@[j as int]@ == word@);
                assert(token_set(tokens@).contains(word@));
            }
            return Some((cmd, args));
        }
        j = j + 1;
    }
    proof {
        assert(!token_set(tokens@).contains(word@));
    }
    None
}

/// Splits a message into the exchange command and its arguments, or gives
/// `None` when the message is not that command.
pub fn command_filter(text: &str) -> (r: Option<(&str, &str)>)
    ensures
        r matches Some((cmd, args)) ==> command_of(text@, set![EXCHANGE_COMMAND@]) == Some((cmd@, args@)),
        r is None ==> command_of(text@, set![EXCHANGE_COMMAND@]) is None,
{
    let tokens = vec![String::from_str(EXCHANGE_COMMAND)];
    let r = extract_command(text, &tokens);
    proof {
        assert(token_set(tokens@) =~= set![EXCHANGE_COMMAND@]);
    }
    r
}

/// A text that does not start with a registered command word followed by
/// white space is no command.
pub proof fn lemma_no_command_without_word(text: Seq<char>, tokens: Set<Seq<char>>)
    requires
        forall|w: Seq<char>, c: char, rest: Seq<char>|
            tokens.contains(w) && is_space(c) ==> text != w + seq![c] + rest,
    ensures
        command_of(text, tokens) is None,
{
    let i = span_end(text, 0, Run::Visible);
    lemma_span(text, 0, Run::Visible);
    if i < text.len() && tokens.contains(text.subrange(0, i)) {
        let w = text.subrange(0, i);
        let rest = text.subrange(i + 1, text.len() as int);
        assert(!in_run(text[i], Run::Visible));
        assert(text =~= w + seq![text[i]] + rest);
    }
}

/// A registered command word, a white-space character and any text after it
/// form that command, with exactly that text as its arguments.
pub proof fn lemma_command_keeps_arguments(w: Seq<char>, c: char, rest: Seq<char>, tokens: Set<Seq<char>>)
    requires
        tokens.contains(w),
        is_word(w),
        is_space(c),
    ensures
        command_of(w + seq![c] + rest, tokens) == Some((w, rest)),
{
    let text = w + seq![c] + rest;
    assert forall|p: int| 0 <= p < w.len() implies #[trigger] in_run(text[p], Run::Visible) by {
        assert(text[p] == w[p]);
    }
    assert(text[w.len() as int] == c);
    lemma_span_end_at(text, 0, w.len() as int, Run::Visible);
    assert(text.subrange(0, w.len() as int) =~= w);
    assert(text.subrange(w.len() as int + 1, text.len() as int) =~= rest);
}

} // verus!
