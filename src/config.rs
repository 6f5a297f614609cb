use crate::api::Api;
use vstd::prelude::*;

verus! {

/// What the dashboard was asked to show: the coins, the fiat currency to
/// price them in, and the provider to ask.
#[derive(Debug)]
pub struct Config {
    pub fiat_symbol: String,
    pub crypto_symbols: Vec<String>,
    pub is_development: bool,
    pub api: Api,
}

impl Config {
    pub fn new(crypto_symbols: Vec<String>, fiat_symbol: String, is_development: bool, api: Api) -> (r: Self)
        ensures
            r.crypto_symbols == crypto_symbols,
            r.fiat_symbol == fiat_symbol,
            r.is_development == is_development,
            r.api == api,
    {
        Config { crypto_symbols, fiat_symbol, is_development, api }
    }
}

} // verus!
