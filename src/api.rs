//! What both quote providers share: looking keys up in a decoded response,
//! joining symbols for a query string, and building request URLs.
use crate::coinmarketcap::CoinMarketCap;
use crate::cryptocompare::CryptoCompare;
use crate::errors::AppError;
use vstd::prelude::*;

verus! {

/// The quote provider that the dashboard asks, chosen once at startup.
#[derive(Debug)]
pub enum Api {
    CoinMarketCap(CoinMarketCap),
    CryptoCompare(CryptoCompare),
}

/// The provider that answers to `name`, if any.
pub open spec fn provider_named(name: Seq<char>, is_development: bool) -> Option<Api> {
    if name == "coinmarketcap"@ {
        Some(Api::CoinMarketCap(CoinMarketCap { is_development }))
    } else if name == "cryptocompare"@ {
        Some(Api::CryptoCompare(CryptoCompare { is_development }))
    } else {
        None
    }
}

impl Api {
    /// The provider called `name` ("coinmarketcap" or "cryptocompare").
    pub fn from_name(name: &String, is_development: bool) -> (r: Option<Api>)
        ensures
            r == provider_named(name@, is_development),
    {
        if *name == String::from_str("coinmarketcap") {
            Some(Api::CoinMarketCap(CoinMarketCap::new(is_development)))
        } else if *name == String::from_str("cryptocompare") {
            Some(Api::CryptoCompare(CryptoCompare::new(is_development)))
        } else {
            None
        }
    }

    /// Whether the provider talks to the local mock server.
    pub fn is_development(&self) -> (r: bool)
        ensures
            r == match self {
                Api::CoinMarketCap(p) => p.is_development,
                Api::CryptoCompare(p) => p.is_development,
            },
    {
        match self {
            Api::CoinMarketCap(p) => p.is_development,
            Api::CryptoCompare(p) => p.is_development,
        }
    }

    /// The base of the provider's endpoints.
    pub fn get_endpoint(&self) -> (r: &'static str)
        ensures
            r@ == match self {
                Api::CoinMarketCap(p) => crate::coinmarketcap::cmc_endpoint(p.is_development),
                Api::CryptoCompare(p) => crate::cryptocompare::cc_endpoint(p.is_development),
            },
    {
        match self {
            Api::CoinMarketCap(p) => p.get_endpoint(),
            Api::CryptoCompare(p) => p.get_endpoint(),
        }
    }
}

/// `s` is one of `symbols`.
pub open spec fn contains_symbol(symbols: Seq<String>, s: Seq<char>) -> bool {
    exists|i: int| 0 <= i < symbols.len() && (#[trigger] symbols[i])@ == s
}

/// Some entry of `entries` has the key `key`.
pub open spec fn has_key<V>(entries: Seq<(String, V)>, key: Seq<char>) -> bool {
    exists|i: int| 0 <= i < entries.len() && (#[trigger] entries[i]).0@ == key
}

/// The value of the first entry with the key `key`.
pub open spec fn lookup<V>(entries: Seq<(String, V)>, key: Seq<char>) -> Option<V>
    decreases entries.len(),
{
    if entries.len() == 0 {
        None
    } else if entries[0].0@ == key {
        Some(entries[0].1)
    } else {
        lookup(entries.drop_first(), key)
    }
}

/// `symbols` written one after another with `sep` between two neighbours.
pub open spec fn joined(symbols: Seq<String>, sep: Seq<char>) -> Seq<char>
    decreases symbols.len(),
{
    if symbols.len() == 0 {
        Seq::empty()
    } else if symbols.len() == 1 {
        symbols[0]@
    } else {
        joined(symbols.drop_last(), sep) + sep + symbols.last()@
    }
}

/// The views of a list of query pairs.
pub open spec fn pairs_view(params: Seq<(String, String)>) -> Seq<(Seq<char>, Seq<char>)> {
    params.map_values(|p: (String, String)| (p.0@, p.1@))
}

/// The text of the absolute URL `base` with `params` appended to its query,
/// or `None` where `base` is not an absolute URL.
pub uninterp spec fn url_with_query(
    base: Seq<char>,
    params: Seq<(Seq<char>, Seq<char>)>,
) -> Option<Seq<char>>;

/// Relies on `reqwest::Url::parse_with_params` (the `url` crate's `Url`):
/// it parses `base` as an absolute URL and appends `params` to its query,
/// depending on its arguments alone; it fails where `base` does not parse.
#[verifier::external_body]
fn parse_with_params(base: &str, params: &Vec<(String, String)>) -> (r: Option<String>)
    ensures
        match r {
            Some(u) => url_with_query(base@, pairs_view(params@)) == Some(u@),
            None => url_with_query(base@, pairs_view(params@)) is None,
        },
{
    match reqwest::Url::parse_with_params(base, params) {
        Ok(url) => Some(String::from(url)),
        Err(_) => None,
    }
}

/// The request URL for `base` and `params`; `ApiParseUrl` naming `base`
/// where `base` is not an absolute URL.
pub fn request_url(base: &String, params: &Vec<(String, String)>) -> (r: Result<String, AppError>)
    ensures
        match url_with_query(base@, pairs_view(params@)) {
            Some(u) => r is Ok && r->Ok_0@ == u,
            None => r is Err && r->Err_0 is ApiParseUrl && r->Err_0->ApiParseUrl_url@ == base@,
        },
{
    match parse_with_params(base.as_str(), params) {
        Some(u) => Ok(u),
        None => Err(AppError::ApiParseUrl { url: base.clone() }),
    }
}

/// No two entries share a key, as in a decoded JSON object.
pub open spec fn keys_distinct<V>(entries: Seq<(String, V)>) -> bool {
    forall|i: int, j: int|
        0 <= i < entries.len() && 0 <= j < entries.len() && i != j ==> (#[trigger] entries[i]).0@
            != (#[trigger] entries[j]).0@
}

/// Whether `s` is one of `symbols`.
pub fn find_symbol(symbols: &Vec<String>, s: &String) -> (r: bool)
    ensures
        r == contains_symbol(symbols@, s@),
{
    let mut i: usize = 0;
    while i < symbols.len()
        invariant
            i <= symbols@.len(),
            forall|j: int| 0 <= j < i ==> (#[trigger] symbols@[j])@ != s@,
        decreases symbols@.len() - i,
    {
        if symbols[i] == *s {
            return true;
        }
        i = i + 1;
    }
    false
}

/// Whether one of the first `end` entries has the key `key`.
pub fn key_in_prefix<V>(entries: &Vec<(String, V)>, end: usize, key: &String) -> (r: bool)
    requires
        end <= entries@.len(),
    ensures
        r == has_key(entries@.subrange(0, end as int), key@),
{
    let mut i: usize = 0;
    while i < end
        invariant
            i <= end <= entries@.len(),
            forall|j: int| 0 <= j < i ==> (#[trigger] entries@[j]).0@ != key@,
        decreases end - i,
    {
        if entries[i].0 == *key {
            assert(entries@.subrange(0, end as int)[i as int] == entries@[i as int]);
            return true;
        }
        i = i + 1;
    }
    assert forall|j: int| 0 <= j < end implies (#[trigger] entries@.subrange(0, end as int)[j]).0@
        != key@ by {
        assert(entries@.subrange(0, end as int)[j] == entries@[j]);
    }
    false
}

/// Whether no two entries share a key.
pub fn distinct_keys<V>(entries: &Vec<(String, V)>) -> (r: bool)
    ensures
        r == keys_distinct(entries@),
{
    let mut i: usize = 0;
    while i < entries.len()
        invariant
            i <= entries@.len(),
            keys_distinct(entries@.subrange(0, i as int)),
        decreases entries@.len() - i,
    {
        if key_in_prefix(entries, i, &entries[i].0) {
            let ghost prefix = entries@.subrange(0, i as int);
            proof {
                let j = choose|j: int| 0 <= j < prefix.len() && (#[trigger] prefix[j]).0@ == entries@[i as int].0@;
                assert(prefix[j] == entries@[j]);
                assert(entries@[j].0@ == entries@[i as int].0@);
            }
            return false;
        }
        proof {
            let next = entries@.subrange(0, i + 1);
            assert forall|a: int, b: int|
                0 <= a < next.len() && 0 <= b < next.len() && a != b implies (#[trigger] next[a]).0@
                != (#[trigger] next[b]).0@ by {
                let prefix = entries@.subrange(0, i as int);
                if a < i && b < i {
                    assert(next[a] == prefix[a] && next[b] == prefix[b]);
                } else if a < i {
                    assert(next[a] == prefix[a]);
                } else {
                    assert(next[b] == prefix[b]);
                }
            }
        }
        i = i + 1;
    }
    assert(entries@.subrange(0, entries@.len() as int) =~= entries@);
    true
}

proof fn lemma_lookup_skip<V>(entries: Seq<(String, V)>, i: int, key: Seq<char>)
    requires
        0 <= i < entries.len(),
        entries[i].0@ != key,
    ensures
        lookup(entries.subrange(i, entries.len() as int), key) == lookup(
            entries.subrange(i + 1, entries.len() as int),
            key,
        ),
{
    assert(entries.subrange(i, entries.len() as int).drop_first() =~= entries.subrange(
        i + 1,
        entries.len() as int,
    ));
}

/// One more entry adds its key and no other.
pub proof fn lemma_has_key_push<V>(init: Seq<(String, V)>, e: (String, V), s: Seq<char>)
    ensures
        has_key(init.push(e), s) == (has_key(init, s) || e.0@ == s),
{
    let entries = init.push(e);
    if has_key(init, s) {
        let i = choose|i: int| 0 <= i < init.len() && (#[trigger] init[i]).0@ == s;
        assert(entries[i] == init[i]);
    }
    if e.0@ == s {
        assert(entries[init.len() as int] == e);
    }
    if has_key(entries, s) {
        let i = choose|i: int| 0 <= i < entries.len() && (#[trigger] entries[i]).0@ == s;
        if i < init.len() {
            assert(entries[i] == init[i]);
        }
    }
}

/// Looking a key up after one more entry: earlier entries win.
pub proof fn lemma_lookup_push<V>(init: Seq<(String, V)>, e: (String, V), key: Seq<char>)
    ensures
        lookup(init.push(e), key) == (if has_key(init, key) {
            lookup(init, key)
        } else if e.0@ == key {
            Some(e.1)
        } else {
            None
        }),
    decreases init.len(),
{
    let all = init.push(e);
    assert(all[0] == if init.len() == 0 { e } else { init[0] });
    if init.len() == 0 {
        assert(all.drop_first() =~= Seq::<(String, V)>::empty());
    } else {
        let tail = init.drop_first();
        assert(all.drop_first() =~= tail.push(e));
        if init[0].0@ != key {
            lemma_lookup_push(tail, e, key);
            if has_key(tail, key) {
                let j = choose|j: int| 0 <= j < tail.len() && (#[trigger] tail[j]).0@ == key;
                assert(init[j + 1] == tail[j]);
            }
            if has_key(init, key) {
                let j = choose|j: int| 0 <= j < init.len() && (#[trigger] init[j]).0@ == key;
                assert(tail[j - 1] == init[j]);
            }
        }
    }
}

/// What a lookup finds is the value of an entry with that key.
pub proof fn lemma_lookup_found<V>(entries: Seq<(String, V)>, key: Seq<char>)
    requires
        lookup(entries, key) is Some,
    ensures
        exists|j: int|
            0 <= j < entries.len() && (#[trigger] entries[j]).0@ == key && Some(entries[j].1)
                == lookup(entries, key),
    decreases entries.len(),
{
    if entries[0].0@ != key {
        let tail = entries.drop_first();
        lemma_lookup_found(tail, key);
        let j = choose|j: int|
            0 <= j < tail.len() && (#[trigger] tail[j]).0@ == key && Some(tail[j].1) == lookup(
                tail,
                key,
            );
        assert(entries[j + 1] == tail[j]);
    }
}

/// The position of the first entry with the key `key`.
pub fn find_key<V>(entries: &Vec<(String, V)>, key: &String) -> (r: Option<usize>)
    ensures
        match r {
            Some(i) => i < entries@.len() && lookup(entries@, key@) == Some(entries@[i as int].1),
            None => lookup(entries@, key@) is None,
        },
{
    let mut i: usize = 0;
    assert(entries@.subrange(0, entries@.len() as int) =~= entries@);
    while i < entries.len()
        invariant
            i <= entries@.len(),
            lookup(entries@, key@) == lookup(entries@.subrange(i as int, entries@.len() as int), key@),
        decreases entries@.len() - i,
    {
        if entries[i].0 == *key {
            return Some(i);
        }
        proof {
            lemma_lookup_skip(entries@, i as int, key@);
        }
        i = i + 1;
    }
    None
}

/// `symbols` joined by `sep`, as in a comma-separated query value.
pub fn join_symbols(symbols: &Vec<String>, sep: &str) -> (r: String)
    ensures
        r@ == joined(symbols@, sep@),
{
    if symbols.len() == 0 {
        return String::new();
    }
    let mut out: String = symbols[0].clone();
    let mut i: usize = 1;
    assert(symbols@.subrange(0, 1).drop_last() =~= Seq::<String>::empty());
    while i < symbols.len()
        invariant
            1 <= i <= symbols@.len(),
            out@ == joined(symbols@.subrange(0, i as int), sep@),
        decreases symbols@.len() - i,
    {
        out.append(sep);
        out.append(symbols[i].as_str());
        assert(symbols@.subrange(0, i + 1).drop_last() =~= symbols@.subrange(0, i as int));
        i = i + 1;
    }
    assert(symbols@.subrange(0, symbols@.len() as int) =~= symbols@);
    out
}

} // verus!
