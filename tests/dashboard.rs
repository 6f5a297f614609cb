use watch_cryptos::api::Api;
use watch_cryptos::coinmarketcap::CoinMarketCap;
use watch_cryptos::config::Config;
use watch_cryptos::dashboard::{App, TableRow, ViewState};
use watch_cryptos::input::{InputEvent, Key};
use watch_cryptos::types::{Coin, Coins};
use watch_cryptos::{AppError, Env};

fn config() -> Config {
    Config::new(
        vec!["BTC".to_string(), "ETH".to_string()],
        "EUR".to_string(),
        false,
        Api::CoinMarketCap(CoinMarketCap::new(false)),
    )
}

fn quoted(symbol: &str, quote: i64) -> Coin {
    let mut coin = Coin::new(symbol.to_string());
    coin.quote = Some(quote);
    coin
}

#[test]
fn starts_on_welcome() {
    let app = App::new(config());
    assert_eq!(app.view_state, ViewState::Welcome);
    assert!(app.coins.is_none());
    assert!(app.table_rows().is_empty());
    assert_eq!(app.current_coin(), None);
}

#[test]
fn loading_coins_shows_list() {
    let mut app = App::new(config());
    assert!(app.load_coins(Coins::new(vec![quoted("BTC", 1), quoted("ETH", 2)])).is_ok());
    assert_eq!(app.view_state, ViewState::List);
    assert_eq!(app.current_coin(), Some(quoted("BTC", 1)));
    assert_eq!(
        app.table_rows(),
        vec![
            TableRow { symbol: "BTC".to_string(), quote: Some(1), selected: true },
            TableRow { symbol: "ETH".to_string(), quote: Some(2), selected: false },
        ]
    );
}

#[test]
fn no_supported_coin_is_fatal() {
    let mut app = App::new(config());
    match app.load_coins(Coins::new(vec![])) {
        Err(AppError::CryptosNotSupported { symbols }) => assert_eq!(symbols, vec!["BTC", "ETH"]),
        other => panic!("unexpected {:?}", other),
    }
    assert_eq!(app.view_state, ViewState::Welcome);
    assert!(app.coins.is_none());
}

#[test]
fn keys_move_selection() {
    let mut app = App::new(config());
    app.load_coins(Coins::new(vec![quoted("BTC", 1), quoted("ETH", 2), quoted("LTC", 3)])).unwrap();
    assert!(app.handle_event(InputEvent::InputKey(Key::Up)));
    assert_eq!(app.current_coin(), Some(quoted("ETH", 2)));
    assert!(app.handle_event(InputEvent::InputKey(Key::Down)));
    assert!(app.handle_event(InputEvent::InputKey(Key::Down)));
    assert_eq!(app.current_coin(), Some(quoted("LTC", 3)));
    assert!(app.handle_event(InputEvent::InputKey(Key::Char('x'))));
    assert_eq!(app.current_coin(), Some(quoted("LTC", 3)));
    assert_eq!(app.table_rows()[2].selected, true);
    assert!(!app.handle_event(InputEvent::Exit));
}

#[test]
fn keys_before_quotes_do_nothing() {
    let mut app = App::new(config());
    assert!(app.handle_event(InputEvent::InputKey(Key::Up)));
    assert!(app.coins.is_none());
    assert!(!app.handle_event(InputEvent::Exit));
}

#[test]
fn q_quits_other_keys_pass() {
    assert_eq!(InputEvent::from_key(Key::Char('q')), InputEvent::Exit);
    assert_eq!(InputEvent::from_key(Key::Char('Q')), InputEvent::InputKey(Key::Char('Q')));
    assert_eq!(InputEvent::from_key(Key::Up), InputEvent::InputKey(Key::Up));
    assert_eq!(InputEvent::from_key(Key::Other), InputEvent::InputKey(Key::Other));
}

#[test]
fn env_keeps_arguments() {
    let env = Env::new(vec!["BTC", "ETH"], "EUR", true);
    assert_eq!(env.crypto_symbols, vec!["BTC", "ETH"]);
    assert_eq!(env.fiat_symbol, "EUR");
    assert!(env.is_development);
    let config = config();
    assert_eq!(config.fiat_symbol, "EUR");
    assert!(!config.api.is_development());
}

#[test]
fn selected_symbol_or_missing() {
    let mut app = App::new(config());
    assert!(matches!(app.current_symbol(), Err(AppError::CurrentCoinMissing())));
    app.load_coins(Coins::new(vec![quoted("BTC", 1), quoted("ETH", 2)])).unwrap();
    assert_eq!(app.current_symbol().unwrap(), "BTC");
    app.handle_event(InputEvent::InputKey(Key::Down));
    assert_eq!(app.current_symbol().unwrap(), "ETH");
}
