//! A terminal watch-list of cryptocurrency quotes: the cursor over the
//! fetched coins, the provider response selection, the dashboard state
//! machine and the key mapping, each with a verified contract.

pub mod api;
pub mod coinmarketcap;
pub mod config;
pub mod cryptocompare;
pub mod dashboard;
pub mod errors;
pub mod input;
pub mod types;

pub use errors::AppError;
pub use types::Coin;

use vstd::prelude::*;

verus! {

/// A coin as the coin listing and quote endpoints describe it.
pub type CoinDetail = coinmarketcap::CMCCoin;

/// One fiat quote of a coin.
pub type Quote = coinmarketcap::CMCQuote;

/// The decoded body of a quotes request.
pub type QuoteData = coinmarketcap::CMCQuoteData;

/// The decoded body of a coin listing request.
pub type CoinListData = coinmarketcap::CMCCoinListData;

/// The name of the environment variable that holds the CoinMarketCap key.
pub const ENV_COINMARKETCAP_KEY: &'static str = "COINMARKETCAP_KEY";

/// The request header that carries the CoinMarketCap key.
pub const HEADER_COINMARKETCAP_KEY: &'static str = "X-CMC_PRO_API_KEY";

/// The command line's choices, borrowed from the arguments.
#[derive(Debug)]
pub struct Env<'a> {
    pub fiat_symbol: &'a str,
    pub crypto_symbols: Vec<&'a str>,
    pub is_development: bool,
}

impl<'a> Env<'a> {
    pub fn new(crypto_symbols: Vec<&'a str>, fiat_symbol: &'a str, is_development: bool) -> (r: Self)
        ensures
            r.crypto_symbols == crypto_symbols,
            r.fiat_symbol == fiat_symbol,
            r.is_development == is_development,
    {
        Env { crypto_symbols, fiat_symbol, is_development }
    }
}

} // verus!
