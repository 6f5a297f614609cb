//! The CryptoCompare provider: its endpoints, request URL and the mapping
//! of its decoded quote response onto the watch-list.
use crate::api::{
    contains_symbol, distinct_keys, find_key, find_symbol, has_key, join_symbols, joined, keys_distinct,
    lemma_lookup_found, lemma_lookup_push, lookup, pairs_view, request_url, url_with_query,
};
use crate::errors::AppError;
use crate::types;
use crate::types::{
    has_symbol, item_at, lemma_symbols_push, lemma_take_new, next_index, prev_index, symbols_of, take_new,
    CoinList, Coins,
};
use vstd::prelude::*;

verus! {

/// The name of the environment variable that holds the API key.
pub const ENV_CRYPTOCOMPARE_KEY: &'static str = "CRYPTOCOMPARE_KEY";

/// A coin quoted in one fiat currency; amounts in millionths of the fiat
/// unit.
#[derive(Debug, Clone, PartialEq)]
pub struct Coin {
    pub symbol: String,
    pub price: i64,
    pub percent_change_24h: i64,
    pub market_cap: i64,
}

/// The decoded body of a quotes request: for each coin symbol, its quotes
/// keyed by fiat code, both in response order.
#[derive(Debug)]
pub struct CoinMapData {
    pub coins: Vec<(String, Vec<(String, Coin)>)>,
}

impl CoinMapData {
    /// No two coins share a key, nor two quotes of one coin.
    pub open spec fn wf(&self) -> bool {
        &&& keys_distinct(self.coins@)
        &&& forall|i: int| 0 <= i < self.coins@.len() ==> keys_distinct((#[trigger] self.coins@[i]).1@)
    }

    /// Whether the response is well formed.
    pub fn is_wf(&self) -> (r: bool)
        ensures
            r == self.wf(),
    {
        if !distinct_keys(&self.coins) {
            return false;
        }
        let mut i: usize = 0;
        while i < self.coins.len()
            invariant
                i <= self.coins@.len(),
                forall|j: int| 0 <= j < i ==> keys_distinct((#[trigger] self.coins@[j]).1@),
            decreases self.coins@.len() - i,
        {
            if !distinct_keys(&self.coins[i].1) {
                return false;
            }
            i = i + 1;
        }
        true
    }
}

/// The base of the provider's endpoints.
pub open spec fn cc_endpoint(is_development: bool) -> Seq<char> {
    if is_development {
        "http://localhost:3000/"@
    } else {
        "https://min-api.cryptocompare.com/data/"@
    }
}

/// The endpoint that answers quote requests.
pub open spec fn cc_quotes_endpoint(is_development: bool) -> Seq<char> {
    if is_development {
        cc_endpoint(is_development) + "/quotes"@
    } else {
        cc_endpoint(is_development) + "/pricemultifull"@
    }
}

/// The query of a quote request for `symbols` in `fiat`, signed with `key`.
pub open spec fn cc_quote_params(symbols: Seq<String>, fiat: Seq<char>, key: Seq<char>) -> Seq<
    (Seq<char>, Seq<char>),
> {
    seq![("fsyms"@, joined(symbols, ","@)), ("tsyms"@, fiat), ("api_key"@, key)]
}

/// The watch-list entry for a quote of the response.
pub open spec fn cc_to_coin(c: Coin) -> types::Coin {
    types::Coin {
        symbol: c.symbol,
        name: None,
        quote: Some(c.price),
        percent_change_24h: Some(c.percent_change_24h),
        market_cap: Some(c.market_cap),
    }
}

/// The watch-list entry that a response entry offers: its quote in `fiat`,
/// where its key is one of `symbols` and it has such a quote.
pub open spec fn cc_candidate(e: (String, Vec<(String, Coin)>), symbols: Seq<String>, fiat: Seq<char>) -> Option<
    types::Coin,
> {
    if contains_symbol(symbols, e.0@) {
        match lookup(e.1@, fiat) {
            Some(q) => Some(cc_to_coin(q)),
            None => None,
        }
    } else {
        None
    }
}

/// What each entry of a response offers, in response order.
pub open spec fn cc_candidates(entries: Seq<(String, Vec<(String, Coin)>)>, symbols: Seq<String>, fiat: Seq<char>) -> Seq<
    Option<types::Coin>,
> {
    entries.map_values(|e: (String, Vec<(String, Coin)>)| cc_candidate(e, symbols, fiat))
}

/// The coins of a response that were asked for, in response order and each
/// symbol once: an entry is taken where its key is one of `symbols`, it holds
/// a quote in `fiat` and no coin taken before has that quote's symbol; the
/// others are dropped without error.
pub open spec fn cc_selection(entries: Seq<(String, Vec<(String, Coin)>)>, symbols: Seq<String>, fiat: Seq<char>) -> Seq<types::Coin> {
    take_new(cc_candidates(entries, symbols, fiat))
}

/// The response quotes the coin `s` in `fiat`.
pub open spec fn quoted_in(entries: Seq<(String, Vec<(String, Coin)>)>, s: Seq<char>, fiat: Seq<char>) -> bool {
    match lookup(entries, s) {
        Some(quotes) => lookup(quotes@, fiat) is Some,
        None => false,
    }
}

/// The keys of a response that are among `symbols` and hold a quote in
/// `fiat`, in response order.
pub open spec fn cc_requested_keys(entries: Seq<(String, Vec<(String, Coin)>)>, symbols: Seq<String>, fiat: Seq<char>) -> Seq<Seq<char>>
    decreases entries.len(),
{
    if entries.len() == 0 {
        Seq::empty()
    } else {
        let rest = cc_requested_keys(entries.drop_last(), symbols, fiat);
        let e = entries.last();
        if contains_symbol(symbols, e.0@) && lookup(e.1@, fiat) is Some {
            rest.push(e.0@)
        } else {
            rest
        }
    }
}

/// Every quote of a response belongs to the coin it is listed under.
pub open spec fn keyed_by_symbol(entries: Seq<(String, Vec<(String, Coin)>)>) -> bool {
    forall|i: int, j: int|
        0 <= i < entries.len() && 0 <= j < entries[i].1@.len() ==> (#[trigger] entries[i].1@[j]).1.symbol@
            == entries[i].0@
}

/// Of a response with distinct keys whose quotes belong to the coins they
/// are listed under, the watch-list holds the requested symbols that the
/// response quotes in `fiat`, in response order; the others are left out.
pub proof fn lemma_selection_keeps_requested(entries: Seq<(String, Vec<(String, Coin)>)>, symbols: Seq<String>, fiat: Seq<char>)
    requires
        keys_distinct(entries),
        keyed_by_symbol(entries),
    ensures
        symbols_of(cc_selection(entries, symbols, fiat)) == cc_requested_keys(entries, symbols, fiat),
        forall|s: Seq<char>|
            #[trigger] cc_requested_keys(entries, symbols, fiat).contains(s) <==> (contains_symbol(
                symbols,
                s,
            ) && quoted_in(entries, s, fiat)),
    decreases entries.len(),
{
    if entries.len() > 0 {
        let n = entries.len() - 1;
        let init = entries.drop_last();
        let e = entries.last();
        assert(init.push(e) =~= entries);
        assert(entries[n] == e);
        assert forall|i: int, j: int|
            0 <= i < init.len() && 0 <= j < init[i].1@.len() implies (#[trigger] init[i].1@[j]).1.symbol@
            == init[i].0@ by {
            assert(init[i] == entries[i]);
        }
        assert forall|i: int, j: int|
            0 <= i < init.len() && 0 <= j < init.len() && i != j implies (#[trigger] init[i]).0@
            != (#[trigger] init[j]).0@ by {
            assert(init[i] == entries[i] && init[j] == entries[j]);
        }
        lemma_selection_keeps_requested(init, symbols, fiat);
        if has_key(init, e.0@) {
            let j = choose|j: int| 0 <= j < init.len() && (#[trigger] init[j]).0@ == e.0@;
            assert(entries[j] == init[j]);
        }
        assert forall|s: Seq<char>| #[trigger] quoted_in(init, s, fiat) implies has_key(init, s) by {
            lemma_lookup_found(init, s);
        }
        assert forall|s: Seq<char>| #[trigger] quoted_in(entries, s, fiat) == (if has_key(init, s) {
            quoted_in(init, s, fiat)
        } else {
            e.0@ == s && lookup(e.1@, fiat) is Some
        }) by {
            lemma_lookup_push(init, e, s);
        }
        let cands = cc_candidates(entries, symbols, fiat);
        assert(cands.drop_last() =~= cc_candidates(init, symbols, fiat));
        assert(cands.last() == cc_candidate(e, symbols, fiat));
        let rest = cc_selection(init, symbols, fiat);
        if contains_symbol(symbols, e.0@) && lookup(e.1@, fiat) is Some {
            let q = lookup(e.1@, fiat).unwrap();
            lemma_lookup_found(e.1@, fiat);
            let j = choose|j: int|
                0 <= j < e.1@.len() && (#[trigger] e.1@[j]).0@ == fiat && Some(e.1@[j].1) == lookup(
                    e.1@,
                    fiat,
                );
            assert(entries[n].1@[j].1.symbol@ == entries[n].0@);
            lemma_symbols_push(rest, cc_to_coin(q));
        }
    }
}

/// Where nothing is requested, or the response is empty, the watch-list
/// is empty: it has no current coin, and a step either way leaves its
/// cursor at 0.
pub proof fn lemma_empty_selection(entries: Seq<(String, Vec<(String, Coin)>)>, symbols: Seq<String>, fiat: Seq<char>)
    requires
        symbols.len() == 0 || entries.len() == 0,
    ensures
        cc_selection(entries, symbols, fiat) == Seq::<types::Coin>::empty(),
        item_at(cc_selection(entries, symbols, fiat), 0) is None,
        next_index(0, cc_selection(entries, symbols, fiat).len() as int) == 0,
        prev_index(0, cc_selection(entries, symbols, fiat).len() as int) == 0,
{
    let cands = cc_candidates(entries, symbols, fiat);
    assert forall|i: int| 0 <= i < cands.len() implies (#[trigger] cands[i]) is None by {
        assert(!contains_symbol(symbols, entries[i].0@));
    }
    lemma_take_new(cands);
}

/// The CryptoCompare provider, talking to a local mock server in
/// development mode.
#[derive(Debug)]
pub struct CryptoCompare {
    pub is_development: bool,
}

impl CryptoCompare {
    pub fn new(is_development: bool) -> (r: Self)
        ensures
            r.is_development == is_development,
    {
        CryptoCompare { is_development }
    }

    pub fn get_endpoint(&self) -> (r: &'static str)
        ensures
            r@ == cc_endpoint(self.is_development),
    {
        if self.is_development {
            "http://localhost:3000/"
        } else {
            "https://min-api.cryptocompare.com/data/"
        }
    }

    pub fn quotes_endpoint(&self) -> (r: String)
        ensures
            r@ == cc_quotes_endpoint(self.is_development),
    {
        let base = String::from_str(self.get_endpoint());
        if self.is_development {
            base.concat("/quotes")
        } else {
            base.concat("/pricemultifull")
        }
    }

    /// The URL that asks for the quotes of `symbols` in `fiat`, signed with
    /// the API key `key`.
    pub fn quotes_url(&self, symbols: &Vec<String>, fiat: &String, key: &String) -> (r: Result<String, AppError>)
        ensures
            match url_with_query(cc_quotes_endpoint(self.is_development), cc_quote_params(symbols@, fiat@, key@)) {
                Some(u) => r is Ok && r->Ok_0@ == u,
                None => r is Err && r->Err_0 is ApiParseUrl && r->Err_0->ApiParseUrl_url@
                    == cc_quotes_endpoint(self.is_development),
            },
    {
        let endpoint = self.quotes_endpoint();
        let mut params: Vec<(String, String)> = Vec::new();
        params.push((String::from_str("fsyms"), join_symbols(symbols, ",")));
        params.push((String::from_str("tsyms"), fiat.clone()));
        params.push((String::from_str("api_key"), key.clone()));
        assert(pairs_view(params@) =~= cc_quote_params(symbols@, fiat@, key@));
        request_url(&endpoint, &params)
    }

    /// The watch-list entry for a quote of the response.
    pub fn to_coin(&self, api_coin: &Coin) -> (r: types::Coin)
        ensures
            r == cc_to_coin(*api_coin),
    {
        types::Coin {
            symbol: api_coin.symbol.clone(),
            name: None,
            quote: Some(api_coin.price),
            percent_change_24h: Some(api_coin.percent_change_24h),
            market_cap: Some(api_coin.market_cap),
        }
    }

    /// The watch-list of the requested coins that the response quotes in
    /// `fiat`, in response order and each symbol once, cursor on the first.
    pub fn coins_from_quotes(&self, data: &CoinMapData, symbols: &Vec<String>, fiat: &String) -> (r: Coins)
        requires
            data.wf(),
        ensures
            r.wf(),
            r.cursor() == 0,
            r.items() == cc_selection(data.coins@, symbols@, fiat@),
            symbols_of(r.items()).no_duplicates(),
    {
        let entries = &data.coins;
        let ghost cands = cc_candidates(entries@, symbols@, fiat@);
        let mut coin_list: CoinList = Vec::new();
        let mut i: usize = 0;
        while i < entries.len()
            invariant
                i <= entries@.len(),
                cands == cc_candidates(entries@, symbols@, fiat@),
                coin_list@ == take_new(cands.subrange(0, i as int)),
            decreases entries@.len() - i,
        {
            if find_symbol(symbols, &entries[i].0) {
                let quotes = &entries[i].1;
                match find_key(quotes, fiat) {
                    Some(j) => {
                        let coin = self.to_coin(&quotes[j].1);
                        if !has_symbol(&coin_list, &coin.symbol) {
                            coin_list.push(coin);
                        }
                    },
                    None => {},
                }
            }
            assert(cands.subrange(0, i + 1).drop_last() =~= cands.subrange(0, i as int));
            assert(cands.subrange(0, i + 1).last() == cands[i as int]);
            i = i + 1;
        }
        assert(cands.subrange(0, entries@.len() as int) =~= cands);
        proof {
            lemma_take_new(cands);
        }
        Coins::new(coin_list)
    }
}

} // verus!
