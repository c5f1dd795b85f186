//! Deciding the reply to an exchange command: an invalid format, a currency
//! that the service does not support, or a conversion to ask the service for.

use vstd::prelude::*;
use crate::command::{command_filter, command_of, EXCHANGE_COMMAND};
use crate::exchange::Symbols;
use crate::query::{is_query, lemma_query_unique, parse_exchange_args, parses_to, query_at};

verus! {

/// What `str::to_uppercase` gives for a text.
pub uninterp spec fn upper_of(s: Seq<char>) -> Seq<char>;

/// Relies on `str::to_uppercase`: the upper-case form of a text, which
/// depends on its characters alone.
#[verifier::external_body]
fn uppercase(s: &str) -> (r: String)
    ensures
        r@ == upper_of(s@),
{
    s.to_uppercase()
}

/// Opens the reply that names an unsupported currency.
pub const UNSUPPORTED_OPEN: &'static str = "不支援的幣別 `";

/// Closes a quoted value.
pub const QUOTE: &'static str = "`";

/// The reply to arguments that are not a query.
pub const INVALID_FORMAT: &'static str =
    "不合法的格式, 應為 `{Amount?}{From}={Target}` 或 `{Amount?}{From} {Target}`";

/// Stands between the amount and the source code in a rate reply.
pub const RATE_FROM: &'static str = "` `";

/// Stands between the source and the target code in a rate reply.
pub const RATE_TO: &'static str = "` 對 `";

/// Stands between the target code and the rate in a rate reply.
pub const RATE_IS: &'static str = "` 的匯率為 `";

/// Ends a rate reply.
pub const RATE_CLOSE: &'static str = "` ";

/// The reply that names `code` as unsupported.
pub open spec fn unsupported_text(code: Seq<char>) -> Seq<char> {
    UNSUPPORTED_OPEN@ + code + QUOTE@
}

/// The reply that reports `result` as the rate of `amount` of `from` in `to`.
pub open spec fn rate_text(amount: Seq<char>, from: Seq<char>, to: Seq<char>, result: Seq<char>) -> Seq<char> {
    QUOTE@ + amount + RATE_FROM@ + from + RATE_TO@ + to + RATE_IS@ + result + RATE_CLOSE@
}

/// What the bot answers to an exchange command, before any conversion.
#[derive(Debug, PartialEq, Eq)]
pub enum Reply {
    /// The arguments are not a query.
    Invalid,
    /// The query names a currency that the service does not support; the
    /// code is as the user wrote it.
    Unsupported(String),
    /// The service is to convert `amount` of `from` into `to`.
    Convert { amount: String, from: String, to: String },
}

/// The mathematical form of a [`Reply`].
pub enum Outcome {
    Invalid,
    Unsupported(Seq<char>),
    Convert(Seq<char>, Seq<char>, Seq<char>),
}

impl View for Reply {
    type V = Outcome;

    open spec fn view(&self) -> Outcome {
        match self {
            Reply::Invalid => Outcome::Invalid,
            Reply::Unsupported(code) => Outcome::Unsupported(code@),
            Reply::Convert { amount, from, to } => Outcome::Convert(amount@, from@, to@),
        }
    }
}

/// The reply to a query, given the upper-case forms of its codes: the source
/// code is checked first, then the target code.
pub open spec fn query_outcome(
    amount: Seq<char>,
    from: Seq<char>,
    to: Seq<char>,
    from_upper: Seq<char>,
    to_upper: Seq<char>,
    currencies: Map<Seq<char>, Seq<char>>,
) -> Outcome {
    if !currencies.contains_key(from_upper) {
        Outcome::Unsupported(from)
    } else if !currencies.contains_key(to_upper) {
        Outcome::Unsupported(to)
    } else {
        Outcome::Convert(amount, from, to)
    }
}

/// The reply to the arguments `args` of an exchange command.
pub open spec fn command_outcome(args: Seq<char>, currencies: Map<Seq<char>, Seq<char>>) -> Outcome {
    if is_query(args) {
        let (amount, from, to) = choose|amount: Seq<char>, from: Seq<char>, to: Seq<char>|
            parses_to(args, amount, from, to);
        query_outcome(amount, from, to, upper_of(from), upper_of(to), currencies)
    } else {
        Outcome::Invalid
    }
}

/// The reply to a query whose codes are given in upper case as well.
pub fn decide(
    amount: String,
    from: String,
    to: String,
    from_upper: &String,
    to_upper: &String,
    symbols: &Symbols,
) -> (r: Reply)
    ensures
        r@ == query_outcome(amount@, from@, to@, from_upper@, to_upper@, symbols.currencies()),
{
    if !symbols.contains_code(from_upper) {
        Reply::Unsupported(from)
    } else if !symbols.contains_code(to_upper) {
        Reply::Unsupported(to)
    } else {
        Reply::Convert { amount, from, to }
    }
}

/// The reply to a query: its codes are looked up in upper case.
pub fn validate(amount: String, from: String, to: String, symbols: &Symbols) -> (r: Reply)
    ensures
        r@ == query_outcome(amount@, from@, to@, upper_of(from@), upper_of(to@), symbols.currencies()),
{
    let from_upper = uppercase(from.as_str());
    let to_upper = uppercase(to.as_str());
    decide(amount, from, to, &from_upper, &to_upper, symbols)
}

/// The reply to the arguments of an exchange command.
pub fn handle_ex_command(cmd_args: &str, support: &Symbols) -> (r: Reply)
    ensures
        r@ == command_outcome(cmd_args@, support.currencies()),
{
    match parse_exchange_args(cmd_args) {
        Some((amount, from, to)) => {
            proof {
                let (a, f, t) = choose|a: Seq<char>, f: Seq<char>, t: Seq<char>|
                    parses_to(cmd_args@, a, f, t);
                lemma_query_unique(cmd_args@, amount@, from@, to@, a, f, t);
            }
            validate(amount, from, to, support)
        },
        None => Reply::Invalid,
    }
}

/// The reply to a message: `None` when it is not the exchange command.
pub fn handle_command(text: &str, support: &Symbols) -> (r: Option<Reply>)
    ensures
        match command_of(text@, set![EXCHANGE_COMMAND@]) {
            None => r is None,
            Some((_, args)) => r matches Some(reply) && reply@ == command_outcome(args, support.currencies()),
        },
{
    match command_filter(text) {
        Some((_, args)) => Some(handle_ex_command(args, support)),
        None => None,
    }
}

impl Reply {
    /// The text to send for this reply; `None` for a conversion, whose text
    /// needs the rate that the service gives.
    pub fn message(&self) -> (r: Option<String>)
        ensures
            match self@ {
                Outcome::Invalid => r matches Some(m) && m@ == INVALID_FORMAT@,
                Outcome::Unsupported(code) => r matches Some(m) && m@ == unsupported_text(code),
                Outcome::Convert(..) => r is None,
            },
    {
        match self {
            Reply::Invalid => Some(String::from_str(INVALID_FORMAT)),
            Reply::Unsupported(code) => {
                let mut m = String::from_str(UNSUPPORTED_OPEN);
                m.append(code.as_str());
                m.append(QUOTE);
                Some(m)
            },
            Reply::Convert { .. } => None,
        }
    }
}

/// The text that reports a rate, with the codes already in upper case and
/// the rate already written out.
pub fn rate_message_upper(amount: &str, from_upper: &str, to_upper: &str, result: &str) -> (r: String)
    ensures
        r@ == rate_text(amount@, from_upper@, to_upper@, result@),
{
    let mut m = String::from_str(QUOTE);
    m.append(amount);
    m.append(RATE_FROM);
    m.append(from_upper);
    m.append(RATE_TO);
    m.append(to_upper);
    m.append(RATE_IS);
    m.append(result);
    m.append(RATE_CLOSE);
    m
}

/// The text that reports the rate `result` of `amount` of `from` in `to`;
/// the codes are shown in upper case.
pub fn rate_message(amount: &str, from: &str, to: &str, result: &str) -> (r: String)
    ensures
        r@ == rate_text(amount@, upper_of(from@), upper_of(to@), result@),
{
    let from_upper = uppercase(from);
    let to_upper = uppercase(to);
    rate_message_upper(amount, from_upper.as_str(), to_upper.as_str(), result)
}

/// With no supported currency, every query is answered by naming its source
/// code, as written, as unsupported.
pub proof fn lemma_no_currencies_rejects_source(
    args: Seq<char>,
    amount: Seq<char>,
    from: Seq<char>,
    to: Seq<char>,
)
    requires
        parses_to(args, amount, from, to),
    ensures
        command_outcome(args, Map::empty()) == Outcome::Unsupported(from),
{
    let (a0, a1, f0, f1, t0, t1) = choose|a0: int, a1: int, f0: int, f1: int, t0: int, t1: int|
        #[trigger] query_at(args, a0, a1, f0, f1, t0, t1) && amount == args.subrange(a0, a1)
            && from == args.subrange(f0, f1) && to == args.subrange(t0, t1);
    assert(query_at(args, a0, a1, f0, f1, t0, t1));
    assert(is_query(args));
    let (a, f, t) = choose|a: Seq<char>, f: Seq<char>, t: Seq<char>| parses_to(args, a, f, t);
    lemma_query_unique(args, amount, from, to, a, f, t);
}

/// The reply depends on the arguments and the supported currencies alone:
/// answering the same arguments against the same currencies again gives the
/// same reply.
pub proof fn lemma_reply_repeatable(
    args: Seq<char>,
    again: Seq<char>,
    currencies: Map<Seq<char>, Seq<char>>,
    currencies_again: Map<Seq<char>, Seq<char>>,
)
    requires
        again == args,
        currencies_again == currencies,
    ensures
        command_outcome(again, currencies_again) == command_outcome(args, currencies),
{
}

} // verus!
