use watch_cryptos::api::{distinct_keys, find_key, find_symbol, join_symbols, key_in_prefix, request_url, Api};
use watch_cryptos::coinmarketcap::{CMCCoin, CMCQuote, CMCQuoteData, CoinMarketCap};
use watch_cryptos::cryptocompare::{self, CoinMapData, CryptoCompare};
use watch_cryptos::types::Coin;
use watch_cryptos::AppError;

fn strings(items: &[&str]) -> Vec<String> {
    items.iter().map(|s| s.to_string()).collect()
}

fn cmc_coin(symbol: &str, name: &str, fiat: &str, price: i64) -> CMCCoin {
    CMCCoin {
        id: 1,
        name: name.to_string(),
        symbol: symbol.to_string(),
        quotes: vec![(fiat.to_string(), CMCQuote { price, volume_24h: 0 })],
    }
}

fn cc_coin(symbol: &str, price: i64) -> cryptocompare::Coin {
    cryptocompare::Coin {
        symbol: symbol.to_string(),
        price,
        percent_change_24h: -25_710_000,
        market_cap: 56_110_256_905_260_000,
    }
}

#[test]
fn to_coin() {
    let quote = CMCQuote { price: 1_100_000, volume_24h: 2_200_000 };
    let api_coin = CMCCoin {
        id: 1,
        name: "Bitcoin".into(),
        symbol: "BTC".into(),
        quotes: vec![("EUR".to_string(), quote)],
    };
    let cmc = CoinMarketCap::new(false);
    let result = cmc.to_coin(&api_coin, &"EUR".to_string());
    let mut expected = Coin::new("BTC".to_string());
    expected.name = Some("Bitcoin".to_string());
    expected.quote = Some(1_100_000);
    assert_eq!(result, expected);
}

#[test]
fn to_coin_without_fiat_quote() {
    let api_coin = cmc_coin("BTC", "Bitcoin", "USD", 5);
    let result = CoinMarketCap::new(false).to_coin(&api_coin, &"EUR".to_string());
    assert_eq!(result.quote, None);
    assert_eq!(result.name, Some("Bitcoin".to_string()));
}

#[test]
fn cmc_missing_symbol_dropped() {
    let data = CMCQuoteData {
        details: vec![
            ("BTC".to_string(), cmc_coin("BTC", "Bitcoin", "EUR", 1)),
            ("ETH".to_string(), cmc_coin("ETH", "Ethereum", "EUR", 2)),
        ],
    };
    let coins = CoinMarketCap::new(false).coins_from_quotes(
        &data,
        &strings(&["BTC", "ETH", "XYZ"]),
        &"EUR".to_string(),
    );
    assert_eq!(coins.get_symbols(), vec!["BTC", "ETH"]);
    assert_eq!(coins.current().unwrap().quote, Some(1));
}

#[test]
fn cmc_response_order_and_unrequested_dropped() {
    let data = CMCQuoteData {
        details: vec![
            ("ETH".to_string(), cmc_coin("ETH", "Ethereum", "EUR", 2)),
            ("LTC".to_string(), cmc_coin("LTC", "Litecoin", "EUR", 3)),
            ("BTC".to_string(), cmc_coin("BTC", "Bitcoin", "EUR", 1)),
        ],
    };
    let coins = CoinMarketCap::new(false).coins_from_quotes(
        &data,
        &strings(&["BTC", "ETH", "BTC"]),
        &"EUR".to_string(),
    );
    assert_eq!(coins.get_symbols(), vec!["ETH", "BTC"]);
}

#[test]
fn cmc_repeated_symbol_taken_once() {
    let data = CMCQuoteData {
        details: vec![
            ("BTC".to_string(), cmc_coin("BTC", "Bitcoin", "EUR", 1)),
            ("XBT".to_string(), cmc_coin("BTC", "Bitcoin", "EUR", 9)),
        ],
    };
    assert!(data.is_wf());
    let coins = CoinMarketCap::new(false).coins_from_quotes(&data, &strings(&["BTC", "XBT"]), &"EUR".to_string());
    assert_eq!(coins.len(), 1);
    assert_eq!(coins.current().unwrap().quote, Some(1));
}

#[test]
fn cc_repeated_symbol_taken_once() {
    let data = CoinMapData {
        coins: vec![
            ("BTC".to_string(), vec![("EUR".to_string(), cc_coin("BTC", 1))]),
            ("XBT".to_string(), vec![("EUR".to_string(), cc_coin("BTC", 9))]),
        ],
    };
    assert!(data.is_wf());
    let coins = CryptoCompare::new(false).coins_from_quotes(&data, &strings(&["BTC", "XBT"]), &"EUR".to_string());
    assert_eq!(coins.get_symbols(), vec!["BTC"]);
    assert_eq!(coins.current().unwrap().quote, Some(1));
}

#[test]
fn repeated_keys_are_not_well_formed() {
    let repeated = CMCQuoteData {
        details: vec![
            ("BTC".to_string(), cmc_coin("BTC", "Bitcoin", "EUR", 1)),
            ("BTC".to_string(), cmc_coin("BTC", "Bitcoin", "EUR", 9)),
        ],
    };
    assert!(!repeated.is_wf());
    let mut coin = cmc_coin("BTC", "Bitcoin", "EUR", 1);
    coin.quotes.push(("EUR".to_string(), CMCQuote { price: 2, volume_24h: 0 }));
    assert!(!CMCQuoteData { details: vec![("BTC".to_string(), coin)] }.is_wf());
    let cc_repeated = CoinMapData {
        coins: vec![
            ("BTC".to_string(), vec![("EUR".to_string(), cc_coin("BTC", 1))]),
            ("BTC".to_string(), vec![("EUR".to_string(), cc_coin("BTC", 2))]),
        ],
    };
    assert!(!cc_repeated.is_wf());
    assert!(distinct_keys(&vec![("a".to_string(), 1), ("b".to_string(), 2)]));
    assert!(!distinct_keys(&vec![("a".to_string(), 1), ("b".to_string(), 2), ("a".to_string(), 3)]));
    assert!(distinct_keys::<i32>(&vec![]));
}

#[test]
fn empty_request_or_response_gives_empty_list() {
    let data = CMCQuoteData { details: vec![("BTC".to_string(), cmc_coin("BTC", "Bitcoin", "EUR", 1))] };
    let cmc = CoinMarketCap::new(false);
    let mut none_asked = cmc.coins_from_quotes(&data, &vec![], &"EUR".to_string());
    assert_eq!(none_asked.current(), None);
    assert_eq!(none_asked.next(), None);
    assert_eq!(none_asked.prev(), None);
    let empty = CMCQuoteData { details: vec![] };
    let mut none_given = cmc.coins_from_quotes(&empty, &strings(&["BTC"]), &"EUR".to_string());
    assert_eq!(none_given.current(), None);
    assert_eq!(none_given.next(), None);
    assert_eq!(none_given.prev(), None);
    let cc = CryptoCompare::new(false);
    let cc_empty = cc.coins_from_quotes(&CoinMapData { coins: vec![] }, &strings(&["BTC"]), &"EUR".to_string());
    assert_eq!(cc_empty.current(), None);
}

#[test]
fn cc_missing_symbol_and_fiat_dropped() {
    let data = CoinMapData {
        coins: vec![
            ("BTC".to_string(), vec![("EUR".to_string(), cc_coin("BTC", 3_200_980_000))]),
            ("ETH".to_string(), vec![("USD".to_string(), cc_coin("ETH", 100))]),
            ("LTC".to_string(), vec![("EUR".to_string(), cc_coin("LTC", 50))]),
        ],
    };
    let coins = CryptoCompare::new(false).coins_from_quotes(
        &data,
        &strings(&["BTC", "ETH", "LTC", "XYZ"]),
        &"EUR".to_string(),
    );
    assert_eq!(coins.get_symbols(), vec!["BTC", "LTC"]);
    let first = coins.current().unwrap();
    assert_eq!(first.quote, Some(3_200_980_000));
    assert_eq!(first.percent_change_24h, Some(-25_710_000));
    assert_eq!(first.market_cap, Some(56_110_256_905_260_000));
    assert_eq!(first.name, None);
}

#[test]
fn cmc_quotes_url_built() {
    let dev = CoinMarketCap::new(true);
    let url = dev.quotes_url(&strings(&["BTC", "ETH"]), &"EUR".to_string()).unwrap();
    assert_eq!(url, "http://localhost:3000/quotes?symbol=BTC%2CETH&convert=EUR");
    let live = CoinMarketCap::new(false);
    let url = live.quotes_url(&strings(&["BTC"]), &"USD".to_string()).unwrap();
    assert_eq!(
        url,
        "https://pro-api.coinmarketcap.com/v1/cryptocurrency/quotes/latest?symbol=BTC&convert=USD"
    );
    assert_eq!(
        dev.coin_map_url().unwrap(),
        "http://localhost:3000/map?start=1&limit=5000"
    );
}

#[test]
fn cc_quotes_url_built() {
    let dev = CryptoCompare::new(true);
    let url = dev.quotes_url(&strings(&["BTC"]), &"EUR".to_string(), &"k".to_string()).unwrap();
    assert_eq!(url, "http://localhost:3000//quotes?fsyms=BTC&tsyms=EUR&api_key=k");
    assert_eq!(
        CryptoCompare::new(false).quotes_endpoint(),
        "https://min-api.cryptocompare.com/data//pricemultifull"
    );
}

#[test]
fn bad_base_url_is_refused() {
    let result = request_url(&"not a url".to_string(), &vec![("a".to_string(), "b".to_string())]);
    match result {
        Err(AppError::ApiParseUrl { url }) => assert_eq!(url, "not a url"),
        other => panic!("unexpected {:?}", other),
    }
    let ok = request_url(&"http://example.net".to_string(), &vec![("a".to_string(), "b c".to_string())]);
    assert_eq!(ok.unwrap(), "http://example.net/?a=b+c");
}

#[test]
fn symbols_joined_with_commas() {
    assert_eq!(join_symbols(&strings(&["BTC", "ETH", "LTC"]), ","), "BTC,ETH,LTC");
    assert_eq!(join_symbols(&strings(&["BTC"]), ","), "BTC");
    assert_eq!(join_symbols(&vec![], ","), "");
}

#[test]
fn lookups_find_first_match() {
    let entries = vec![("a".to_string(), 1), ("b".to_string(), 2), ("a".to_string(), 3)];
    assert_eq!(find_key(&entries, &"a".to_string()), Some(0));
    assert_eq!(find_key(&entries, &"b".to_string()), Some(1));
    assert_eq!(find_key(&entries, &"c".to_string()), None);
    assert!(key_in_prefix(&entries, 2, &"b".to_string()));
    assert!(!key_in_prefix(&entries, 1, &"b".to_string()));
    assert!(find_symbol(&strings(&["BTC", "ETH"]), &"ETH".to_string()));
    assert!(!find_symbol(&strings(&["BTC", "ETH"]), &"XYZ".to_string()));
}

#[test]
fn detail_lookup() {
    let data = CMCQuoteData { details: vec![("BTC".to_string(), cmc_coin("BTC", "Bitcoin", "EUR", 1))] };
    let cmc = CoinMarketCap::new(true);
    assert_eq!(cmc.detail_of(&data, &"BTC".to_string()).unwrap().name, "Bitcoin");
    match cmc.detail_of(&data, &"ETH".to_string()) {
        Err(AppError::ApiParseMap { key }) => assert_eq!(key, "ETH"),
        other => panic!("unexpected {:?}", other),
    }
}

#[test]
fn providers_by_name() {
    match Api::from_name(&"coinmarketcap".to_string(), true) {
        Some(api) => {
            assert!(api.is_development());
            assert_eq!(api.get_endpoint(), "http://localhost:3000");
        }
        None => panic!("coinmarketcap is a provider"),
    }
    match Api::from_name(&"cryptocompare".to_string(), false) {
        Some(api) => assert_eq!(api.get_endpoint(), "https://min-api.cryptocompare.com/data/"),
        None => panic!("cryptocompare is a provider"),
    }
    assert!(Api::from_name(&"other".to_string(), false).is_none());
}

#[test]
fn outside_errors_convert() {
    let json_error = serde_json::from_str::<i32>("x").unwrap_err();
    assert!(matches!(AppError::from(json_error), AppError::SerdeError(_)));
}
