//! The CoinMarketCap provider: its endpoints, request URL and the mapping
//! of its decoded quote response onto the watch-list.
use crate::api::{
    contains_symbol, distinct_keys, find_key, find_symbol, has_key, join_symbols, joined, keys_distinct,
    lemma_has_key_push, lookup, pairs_view, request_url, url_with_query,
};
use crate::errors::AppError;
use crate::types::{
    has_symbol, item_at, lemma_symbols_push, lemma_take_new, next_index, prev_index, symbols_of, take_new,
    Coin, CoinList, Coins,
};
use vstd::prelude::*;

verus! {

/// One fiat quote of a coin; amounts in millionths of the fiat unit.
#[derive(Debug, Clone, Copy, PartialEq)]
pub struct CMCQuote {
    pub price: i64,
    pub volume_24h: i64,
}

/// A coin of a CoinMarketCap response, with its quotes keyed by fiat code
/// in response order.
#[derive(Debug, Clone, PartialEq)]
pub struct CMCCoin {
    pub id: i32,
    pub name: String,
    pub symbol: String,
    pub quotes: Vec<(String, CMCQuote)>,
}

/// The decoded body of a coin listing request.
#[derive(Debug)]
pub struct CMCCoinListData {
    pub coins: Vec<CMCCoin>,
}

/// The decoded body of a quotes request: coins keyed by symbol, in response
/// order.
#[derive(Debug)]
pub struct CMCQuoteData {
    pub details: Vec<(String, CMCCoin)>,
}

impl CMCQuoteData {
    /// No two coins share a key, nor two quotes of one coin.
    pub open spec fn wf(&self) -> bool {
        &&& keys_distinct(self.details@)
        &&& forall|i: int|
            0 <= i < self.details@.len() ==> keys_distinct((#[trigger] self.details@[i]).1.quotes@)
    }

    /// Whether the response is well formed.
    pub fn is_wf(&self) -> (r: bool)
        ensures
            r == self.wf(),
    {
        if !distinct_keys(&self.details) {
            return false;
        }
        let mut i: usize = 0;
        while i < self.details.len()
            invariant
                i <= self.details@.len(),
                forall|j: int| 0 <= j < i ==> keys_distinct((#[trigger] self.details@[j]).1.quotes@),
            decreases self.details@.len() - i,
        {
            if !distinct_keys(&self.details[i].1.quotes) {
                return false;
            }
            i = i + 1;
        }
        true
    }
}

/// The base of the provider's endpoints.
pub open spec fn cmc_endpoint(is_development: bool) -> Seq<char> {
    if is_development {
        "http://localhost:3000"@
    } else {
        "https://pro-api.coinmarketcap.com/v1/cryptocurrency"@
    }
}

/// The endpoint that answers quote requests.
pub open spec fn cmc_quotes_endpoint(is_development: bool) -> Seq<char> {
    if is_development {
        cmc_endpoint(is_development) + "/quotes"@
    } else {
        cmc_endpoint(is_development) + "/quotes/latest"@
    }
}

/// The query of a quote request for `symbols` in `fiat`.
pub open spec fn cmc_quote_params(symbols: Seq<String>, fiat: Seq<char>) -> Seq<(Seq<char>, Seq<char>)> {
    seq![("symbol"@, joined(symbols, ","@)), ("convert"@, fiat)]
}

/// The watch-list entry for a coin of the response: its price is the one
/// quoted in `fiat`, if any.
pub open spec fn cmc_to_coin(c: CMCCoin, fiat: Seq<char>) -> Coin {
    Coin {
        symbol: c.symbol,
        name: Some(c.name),
        quote: match lookup(c.quotes@, fiat) {
            Some(q) => Some(q.price),
            None => None,
        },
        percent_change_24h: None,
        market_cap: None,
    }
}

/// The watch-list entry that a response entry offers: its coin, where its
/// key is one of `symbols`.
pub open spec fn cmc_candidate(e: (String, CMCCoin), symbols: Seq<String>, fiat: Seq<char>) -> Option<Coin> {
    if contains_symbol(symbols, e.0@) {
        Some(cmc_to_coin(e.1, fiat))
    } else {
        None
    }
}

/// What each entry of a response offers, in response order.
pub open spec fn cmc_candidates(
    entries: Seq<(String, CMCCoin)>,
    symbols: Seq<String>,
    fiat: Seq<char>,
) -> Seq<Option<Coin>> {
    entries.map_values(|e: (String, CMCCoin)| cmc_candidate(e, symbols, fiat))
}

/// The coins of a response that were asked for, in response order and each
/// symbol once: an entry is taken where its key is one of `symbols` and no
/// coin taken before has its coin's symbol; the others are dropped without
/// error.
pub open spec fn cmc_selection(
    entries: Seq<(String, CMCCoin)>,
    symbols: Seq<String>,
    fiat: Seq<char>,
) -> Seq<Coin> {
    take_new(cmc_candidates(entries, symbols, fiat))
}

/// The keys of a response that are among `symbols`, in response order.
pub open spec fn cmc_requested_keys(entries: Seq<(String, CMCCoin)>, symbols: Seq<String>) -> Seq<Seq<char>>
    decreases entries.len(),
{
    if entries.len() == 0 {
        Seq::empty()
    } else {
        let rest = cmc_requested_keys(entries.drop_last(), symbols);
        if contains_symbol(symbols, entries.last().0@) {
            rest.push(entries.last().0@)
        } else {
            rest
        }
    }
}

/// Every entry of a quote response lists a coin under the coin's own symbol.
pub open spec fn keyed_by_symbol(entries: Seq<(String, CMCCoin)>) -> bool {
    forall|i: int| 0 <= i < entries.len() ==> (#[trigger] entries[i]).0@ == entries[i].1.symbol@
}

/// Of a response with distinct keys that lists each coin under its own
/// symbol, the watch-list holds the requested symbols that the response has,
/// in response order; requested symbols missing from the response are left
/// out.
pub proof fn lemma_selection_keeps_requested(
    entries: Seq<(String, CMCCoin)>,
    symbols: Seq<String>,
    fiat: Seq<char>,
)
    requires
        keys_distinct(entries),
        keyed_by_symbol(entries),
    ensures
        symbols_of(cmc_selection(entries, symbols, fiat)) == cmc_requested_keys(entries, symbols),
        forall|s: Seq<char>|
            #[trigger] cmc_requested_keys(entries, symbols).contains(s) <==> (contains_symbol(symbols, s)
                && has_key(entries, s)),
    decreases entries.len(),
{
    if entries.len() > 0 {
        let n = entries.len() - 1;
        let init = entries.drop_last();
        let e = entries.last();
        assert(init.push(e) =~= entries);
        assert forall|i: int| 0 <= i < init.len() implies (#[trigger] init[i]).0@ == init[i].1.symbol@ by {
            assert(init[i] == entries[i]);
        }
        assert forall|i: int, j: int|
            0 <= i < init.len() && 0 <= j < init.len() && i != j implies (#[trigger] init[i]).0@
            != (#[trigger] init[j]).0@ by {
            assert(init[i] == entries[i] && init[j] == entries[j]);
        }
        lemma_selection_keeps_requested(init, symbols, fiat);
        assert forall|s: Seq<char>| #[trigger] has_key(entries, s) == (has_key(init, s) || e.0@ == s) by {
            lemma_has_key_push(init, e, s);
        }
        if has_key(init, e.0@) {
            let j = choose|j: int| 0 <= j < init.len() && (#[trigger] init[j]).0@ == e.0@;
            assert(entries[j] == init[j] && entries[n] == e);
        }
        let cands = cmc_candidates(entries, symbols, fiat);
        assert(cands.drop_last() =~= cmc_candidates(init, symbols, fiat));
        assert(cands.last() == cmc_candidate(e, symbols, fiat));
        let rest = cmc_selection(init, symbols, fiat);
        if contains_symbol(symbols, e.0@) {
            let c = cmc_to_coin(e.1, fiat);
            assert(entries[n] == e);
            assert(c.symbol@ == e.0@);
            lemma_symbols_push(rest, c);
        }
    }
}

/// Where nothing is requested, or the response is empty, the watch-list
/// is empty: it has no current coin, and a step either way leaves its
/// cursor at 0.
pub proof fn lemma_empty_selection(entries: Seq<(String, CMCCoin)>, symbols: Seq<String>, fiat: Seq<char>)
    requires
        symbols.len() == 0 || entries.len() == 0,
    ensures
        cmc_selection(entries, symbols, fiat) == Seq::<Coin>::empty(),
        item_at(cmc_selection(entries, symbols, fiat), 0) is None,
        next_index(0, cmc_selection(entries, symbols, fiat).len() as int) == 0,
        prev_index(0, cmc_selection(entries, symbols, fiat).len() as int) == 0,
{
    let cands = cmc_candidates(entries, symbols, fiat);
    assert forall|i: int| 0 <= i < cands.len() implies (#[trigger] cands[i]) is None by {
        assert(!contains_symbol(symbols, entries[i].0@));
    }
    lemma_take_new(cands);
}


/// The CoinMarketCap provider, talking to a local mock server in
/// development mode.
#[derive(Debug)]
pub struct CoinMarketCap {
    pub is_development: bool,
}

impl CoinMarketCap {
    pub fn new(is_development: bool) -> (r: Self)
        ensures
            r.is_development == is_development,
    {
        CoinMarketCap { is_development }
    }

    pub fn get_endpoint(&self) -> (r: &'static str)
        ensures
            r@ == cmc_endpoint(self.is_development),
    {
        if self.is_development {
            "http://localhost:3000"
        } else {
            "https://pro-api.coinmarketcap.com/v1/cryptocurrency"
        }
    }

    pub fn quotes_endpoint(&self) -> (r: String)
        ensures
            r@ == cmc_quotes_endpoint(self.is_development),
    {
        let base = String::from_str(self.get_endpoint());
        if self.is_development {
            base.concat("/quotes")
        } else {
            base.concat("/quotes/latest")
        }
    }

    /// The URL that asks for the quotes of `symbols` in `fiat`.
    pub fn quotes_url(&self, symbols: &Vec<String>, fiat: &String) -> (r: Result<String, AppError>)
        ensures
            match url_with_query(cmc_quotes_endpoint(self.is_development), cmc_quote_params(symbols@, fiat@)) {
                Some(u) => r is Ok && r->Ok_0@ == u,
                None => r is Err && r->Err_0 is ApiParseUrl && r->Err_0->ApiParseUrl_url@
                    == cmc_quotes_endpoint(self.is_development),
            },
    {
        let endpoint = self.quotes_endpoint();
        let mut params: Vec<(String, String)> = Vec::new();
        params.push((String::from_str("symbol"), join_symbols(symbols, ",")));
        params.push((String::from_str("convert"), fiat.clone()));
        assert(pairs_view(params@) =~= cmc_quote_params(symbols@, fiat@));
        request_url(&endpoint, &params)
    }

    /// The endpoint that lists the coins the provider knows.
    pub fn map_endpoint(&self) -> (r: String)
        ensures
            r@ == cmc_endpoint(self.is_development) + "/map"@,
    {
        String::from_str(self.get_endpoint()).concat("/map")
    }

    /// The URL that asks for the first page of the provider's coin listing.
    pub fn coin_map_url(&self) -> (r: Result<String, AppError>)
        ensures
            match url_with_query(cmc_endpoint(self.is_development) + "/map"@, seq![("start"@, "1"@), ("limit"@, "5000"@)]) {
                Some(u) => r is Ok && r->Ok_0@ == u,
                None => r is Err && r->Err_0 is ApiParseUrl && r->Err_0->ApiParseUrl_url@
                    == cmc_endpoint(self.is_development) + "/map"@,
            },
    {
        let endpoint = self.map_endpoint();
        let mut params: Vec<(String, String)> = Vec::new();
        params.push((String::from_str("start"), String::from_str("1")));
        params.push((String::from_str("limit"), String::from_str("5000")));
        assert(pairs_view(params@) =~= seq![("start"@, "1"@), ("limit"@, "5000"@)]);
        request_url(&endpoint, &params)
    }

    /// The coin that a quote response lists under `symbol`; `ApiParseMap`
    /// naming `symbol` where it lists none.
    pub fn detail_of<'a>(&self, data: &'a CMCQuoteData, symbol: &String) -> (r: Result<&'a CMCCoin, AppError>)
        ensures
            match lookup(data.details@, symbol@) {
                Some(c) => r is Ok && *r->Ok_0 == c,
                None => r is Err && r->Err_0 is ApiParseMap && r->Err_0->ApiParseMap_key@ == symbol@,
            },
    {
        match find_key(&data.details, symbol) {
            Some(i) => Ok(&data.details[i].1),
            None => Err(AppError::ApiParseMap { key: symbol.clone() }),
        }
    }

    /// The watch-list entry for `api_coin`, priced in `fiat`.
    pub fn to_coin(&self, api_coin: &CMCCoin, fiat: &String) -> (r: Coin)
        ensures
            r == cmc_to_coin(*api_coin, fiat@),
    {
        let quote = match find_key(&api_coin.quotes, fiat) {
            Some(i) => Some(api_coin.quotes[i].1.price),
            None => None,
        };
        Coin {
            symbol: api_coin.symbol.clone(),
            name: Some(api_coin.name.clone()),
            quote,
            percent_change_24h: None,
            market_cap: None,
        }
    }

    /// The watch-list of the requested coins that the response holds, in
    /// response order and each symbol once, cursor on the first.
    pub fn coins_from_quotes(&self, data: &CMCQuoteData, symbols: &Vec<String>, fiat: &String) -> (r: Coins)
        requires
            data.wf(),
        ensures
            r.wf(),
            r.cursor() == 0,
            r.items() == cmc_selection(data.details@, symbols@, fiat@),
            symbols_of(r.items()).no_duplicates(),
    {
        let entries = &data.details;
        let ghost cands = cmc_candidates(entries@, symbols@, fiat@);
        let mut coin_list: CoinList = Vec::new();
        let mut i: usize = 0;
        while i < entries.len()
            invariant
                i <= entries@.len(),
                cands == cmc_candidates(entries@, symbols@, fiat@),
                coin_list@ == take_new(cands.subrange(0, i as int)),
            decreases entries@.len() - i,
        {
            if find_symbol(symbols, &entries[i].0) {
                let coin = self.to_coin(&entries[i].1, fiat);
                if !has_symbol(&coin_list, &coin.symbol) {
                    coin_list.push(coin);
                }
            }
            assert(cands.subrange(0, i + 1).drop_last() =~= cands.subrange(0, i as int));
            assert(cands.subrange(0, i + 1).last() == cands[i as int]);
            i = i + 1;
        }
        assert(cands.subrange(0, entries@.len() as int) =~= cands);
        proof {
            lemma_take_new(cands);
        }
        Coins::new(coin_list)
    }
}

} // verus!
