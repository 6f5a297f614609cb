//! The dashboard's decisions: which screen shows, what the quote table
//! holds, and how each input event changes the selection.
use crate::config::Config;
use crate::errors::AppError;
use crate::input::{InputEvent, Key};
use crate::types::{item_at, next_index, prev_index, Coin, Coins};
use vstd::prelude::*;

verus! {

/// The screen the dashboard shows.
#[derive(Debug, Clone, Copy, PartialEq, Eq, Structural)]
pub enum ViewState {
    /// Before the quotes have arrived.
    Welcome,
    /// The quote table, with the selected coin marked.
    List,
}

/// One line of the quote table.
#[derive(Debug, Clone, PartialEq)]
pub struct TableRow {
    pub symbol: String,
    pub quote: Option<i64>,
    pub selected: bool,
}

/// Where the cursor of a list of `len` coins goes on `event`: up selects the
/// next coin, down the previous one, anything else leaves it.
pub open spec fn cursor_after(cursor: int, len: int, event: InputEvent) -> int {
    match event {
        InputEvent::InputKey(Key::Up) => next_index(cursor, len),
        InputEvent::InputKey(Key::Down) => prev_index(cursor, len),
        _ => cursor,
    }
}

/// Row `i` of the quote table over `items` with the cursor at `cursor`: a
/// row is marked where its symbol is the selected coin's.
pub open spec fn row_matches(row: TableRow, items: Seq<Coin>, cursor: int, i: int) -> bool {
    &&& row.symbol == items[i].symbol
    &&& row.quote == items[i].quote
    &&& row.selected == match item_at(items, cursor) {
        Some(cur) => cur.symbol@ == items[i].symbol@,
        None => false,
    }
}

/// The dashboard: the configuration, the watch-list once fetched, and the
/// screen on show.
#[derive(Debug)]
pub struct App {
    pub config: Config,
    pub coins: Option<Coins>,
    pub view_state: ViewState,
}

impl App {
    /// A watch-list, if there is one, is well formed.
    pub open spec fn wf(&self) -> bool {
        match self.coins {
            Some(c) => c.wf(),
            None => true,
        }
    }

    pub fn new(config: Config) -> (r: Self)
        ensures
            r.wf(),
            r.config == config,
            r.coins is None,
            r.view_state == ViewState::Welcome,
    {
        App { config, coins: None, view_state: ViewState::Welcome }
    }

    /// Takes the fetched watch-list and shows it. A list without a single
    /// coin is fatal: it is refused with `CryptosNotSupported` and the
    /// dashboard stays as it was.
    pub fn load_coins(&mut self, coins: Coins) -> (r: Result<(), AppError>)
        requires
            old(self).wf(),
            coins.wf(),
        ensures
            final(self).wf(),
            final(self).config == old(self).config,
            coins.items().len() == 0 ==> r is Err && r->Err_0 is CryptosNotSupported
                && r->Err_0->CryptosNotSupported_symbols@ == old(self).config.crypto_symbols@
                && final(self).coins == old(self).coins && final(self).view_state == old(
                self,
            ).view_state,
            coins.items().len() > 0 ==> r is Ok && final(self).coins == Some(coins)
                && final(self).view_state == ViewState::List,
    {
        if coins.is_empty() {
            Err(AppError::CryptosNotSupported { symbols: self.config.crypto_symbols.clone() })
        } else {
            self.coins = Some(coins);
            self.view_state = ViewState::List;
            Ok(())
        }
    }

    /// Applies one input event; returns whether the dashboard keeps running.
    pub fn handle_event(&mut self, event: InputEvent) -> (r: bool)
        requires
            old(self).wf(),
        ensures
            r == !(event is Exit),
            final(self).wf(),
            final(self).config == old(self).config,
            final(self).view_state == old(self).view_state,
            match (old(self).coins, final(self).coins) {
                (Some(c), Some(d)) => d.items() == c.items() && d.cursor() == cursor_after(
                    c.cursor(),
                    c.items().len() as int,
                    event,
                ),
                (None, None) => true,
                _ => false,
            },
    {
        match event {
            InputEvent::Exit => false,
            InputEvent::InputKey(key) => {
                match &mut self.coins {
                    Some(coins) => {
                        match key {
                            Key::Up => {
                                coins.next();
                            },
                            Key::Down => {
                                coins.prev();
                            },
                            _ => {},
                        }
                    },
                    None => {},
                }
                true
            },
        }
    }

    /// The selected coin, if there is a watch-list and it is not empty.
    pub fn current_coin(&self) -> (r: Option<Coin>)
        requires
            self.wf(),
        ensures
            r == match self.coins {
                Some(c) => item_at(c.items(), c.cursor()),
                None => None,
            },
    {
        match &self.coins {
            Some(c) => c.current(),
            None => None,
        }
    }

    /// The symbol of the selected coin; `CurrentCoinMissing` where no coin
    /// is selected.
    pub fn current_symbol(&self) -> (r: Result<String, AppError>)
        requires
            self.wf(),
        ensures
            match self.coins {
                Some(c) => match item_at(c.items(), c.cursor()) {
                    Some(cur) => r is Ok && r->Ok_0 == cur.symbol,
                    None => r is Err && r->Err_0 is CurrentCoinMissing,
                },
                None => r is Err && r->Err_0 is CurrentCoinMissing,
            },
    {
        match self.current_coin() {
            Some(coin) => Ok(coin.symbol),
            None => Err(AppError::CurrentCoinMissing()),
        }
    }

    /// The rows of the quote table: one per coin, in list order, on the
    /// list screen; none on the welcome screen or before the quotes arrive.
    pub fn table_rows(&self) -> (r: Vec<TableRow>)
        requires
            self.wf(),
        ensures
            match (self.view_state, self.coins) {
                (ViewState::List, Some(c)) => r@.len() == c.items().len() && forall|i: int|
                    0 <= i < r@.len() ==> #[trigger] row_matches(r@[i], c.items(), c.cursor(), i),
                _ => r@.len() == 0,
            },
    {
        let mut rows: Vec<TableRow> = Vec::new();
        if self.view_state == ViewState::List {
            match &self.coins {
                Some(coins) => {
                    let current = coins.current();
                    let mut i: usize = 0;
                    let n = coins.len();
                    while i < n
                        invariant
                            coins.wf(),
                            n == coins.items().len(),
                            current == item_at(coins.items(), coins.cursor()),
                            i <= n,
                            rows@.len() == i,
                            forall|j: int|
                                0 <= j < i ==> #[trigger] row_matches(
                                    rows@[j],
                                    coins.items(),
                                    coins.cursor(),
                                    j,
                                ),
                        decreases n - i,
                    {
                        let coin = coins.get(i);
                        let selected = match &current {
                            Some(cur) => cur.symbol == coin.symbol,
                            None => false,
                        };
                        rows.push(
                            TableRow { symbol: coin.symbol.clone(), quote: coin.quote, selected },
                        );
                        i = i + 1;
                    }
                },
                None => {},
            }
        }
        rows
    }
}

} // verus!
