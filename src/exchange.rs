//! The exchange-rate service as the bot sees it: the addresses it asks and
//! the table of currencies it supports.

use vstd::prelude::*;

verus! {

/// The service address, with a slot for the request and the key appended.
pub const ENDPOINT_BASE: &'static str = "http://api.exchangerate.host/|req|?access_key=";

/// The slot in an endpoint that names the request.
pub const REQUEST_SLOT: &'static str = "|req|";

/// The request that lists the supported currencies.
pub const LIST_REQUEST: &'static str = "list";

/// The request that converts an amount.
pub const CONVERT_REQUEST: &'static str = "convert&from";

/// What `str::replace` gives for a text, a pattern and its replacement.
pub uninterp spec fn replaced(s: Seq<char>, pattern: Seq<char>, with: Seq<char>) -> Seq<char>;

/// Relies on `str::replace`: every non-overlapping occurrence of `pattern`,
/// from left to right, becomes `with`; the result depends on the three texts
/// alone.
#[verifier::external_body]
fn replace_all(s: &str, pattern: &str, with: &str) -> (r: String)
    ensures
        r@ == replaced(s@, pattern@, with@),
{
    s.replace(pattern, with)
}

/// A client of the exchange-rate service.
#[derive(Clone)]
pub struct ExchangeClient {
    pub endpoint: String,
}

impl ExchangeClient {
    /// A client that authenticates with `apikey`.
    pub fn new(apikey: &str) -> (r: Self)
        ensures
            r.endpoint@ == ENDPOINT_BASE@ + apikey@,
    {
        let mut endpoint = String::from_str(ENDPOINT_BASE);
        endpoint.append(apikey);
        ExchangeClient { endpoint }
    }

    /// The address that lists the supported currencies.
    pub fn list_url(&self) -> (r: String)
        ensures
            r@ == replaced(self.endpoint@, REQUEST_SLOT@, LIST_REQUEST@),
    {
        replace_all(self.endpoint.as_str(), REQUEST_SLOT, LIST_REQUEST)
    }

    /// The address that converts `value` of `from` into `target`.
    pub fn convert_url(&self, from: &str, target: &str, value: &str) -> (r: String)
        ensures
            r@ == replaced(self.endpoint@, REQUEST_SLOT@, CONVERT_REQUEST@) + "&from="@ + from@
                + "&to="@ + target@ + "&amount="@ + value@,
    {
        let mut url = replace_all(self.endpoint.as_str(), REQUEST_SLOT, CONVERT_REQUEST);
        url.append("&from=");
        url.append(from);
        url.append("&to=");
        url.append(target);
        url.append("&amount=");
        url.append(value);
        url
    }
}

/// The map that a list of (code, name) entries describes; a later entry for
/// a code replaces an earlier one.
pub open spec fn entries_map(e: Seq<(String, String)>) -> Map<Seq<char>, Seq<char>>
    decreases e.len(),
{
    if e.len() == 0 {
        Map::empty()
    } else {
        entries_map(e.drop_last()).insert(e.last().0@, e.last().1@)
    }
}

proof fn lemma_entries_map_has(e: Seq<(String, String)>, code: Seq<char>)
    ensures
        entries_map(e).contains_key(code) <==> exists|i: int| 0 <= i < e.len() && #[trigger] e[i].0@ == code,
    decreases e.len(),
{
    if e.len() > 0 {
        lemma_entries_map_has(e.drop_last(), code);
        if entries_map(e.drop_last()).contains_key(code) {
            let i = choose|i: int| 0 <= i < e.drop_last().len() && #[trigger] e.drop_last()[i].0@ == code;
            assert(e[i].0@ == code);
        }
        if exists|i: int| 0 <= i < e.len() && #[trigger] e[i].0@ == code {
            let i = choose|i: int| 0 <= i < e.len() && #[trigger] e[i].0@ == code;
            if i < e.len() - 1 {
                assert(e.drop_last()[i].0@ == code);
            }
        }
    }
}

/// The currencies that the service supports, by code, with their names.
pub struct Symbols {
    pub success: bool,
    pub terms: String,
    pub privacy: String,
    pub symbols: Vec<(String, String)>,
}

impl Symbols {
    /// The supported codes and their names.
    pub open spec fn currencies(&self) -> Map<Seq<char>, Seq<char>> {
        entries_map(self.symbols@)
    }

    /// A table with no currency in it.
    pub fn new() -> (r: Self)
        ensures
            r.currencies() == Map::<Seq<char>, Seq<char>>::empty(),
    {
        Symbols { success: true, terms: String::new(), privacy: String::new(), symbols: Vec::new() }
    }

    /// Adds currency `code` named `name`, replacing an earlier name of it.
    pub fn insert(&mut self, code: String, name: String)
        ensures
            final(self).currencies() == old(self).currencies().insert(code@, name@),
    {
        self.symbols.push((code, name));
        proof {
            assert(final(self).symbols@.drop_last() =~= old(self).symbols@);
        }
    }

    /// Whether `code` is a supported currency, compared exactly.
    pub fn contains_code(&self, code: &String) -> (r: bool)
        ensures
            r == self.currencies().contains_key(code@),
    {
        let mut i: usize = 0;
        while i < self.symbols.len()
            invariant
                i <= self.symbols.len(),
                forall|j: int| 0 <= j < i ==> #[trigger] self.symbols@[j].0@ != code@,
            decreases self.symbols.len() - i,
        {
            if self.symbols[i].0 == *code {
                proof {
                    assert(self.symbols@[i as int].0@ == code@);
                    lemma_entries_map_has(self.symbols@, code@);
                }
                return true;
            }
            i = i + 1;
        }
        proof {
            lemma_entries_map_has(self.symbols@, code@);
        }
        false
    }
}

} // verus!
