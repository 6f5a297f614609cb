use vstd::arithmetic::div_mod::{lemma_mod_add_multiples_vanish, lemma_small_mod};
use vstd::prelude::*;

verus! {

/// One cryptocurrency and what a provider quoted for it in one fiat currency.
///
/// Amounts are fixed-point integers in millionths of the fiat unit
/// (`1_500_000` stands for `1.5`).
#[derive(Debug, Clone, PartialEq)]
pub struct Coin {
    pub symbol: String,
    pub name: Option<String>,
    pub quote: Option<i64>,
    pub percent_change_24h: Option<i64>,
    pub market_cap: Option<i64>,
}

impl Coin {
    /// A coin with a symbol and no quote data.
    pub fn new(symbol: String) -> (r: Coin)
        ensures
            r.symbol == symbol,
            r.name is None,
            r.quote is None,
            r.percent_change_24h is None,
            r.market_cap is None,
    {
        Coin { symbol, name: None, quote: None, percent_change_24h: None, market_cap: None }
    }

    /// An owned copy of this coin, equal to it field by field.
    pub fn snapshot(&self) -> (r: Coin)
        ensures
            r == *self,
    {
        let name = match &self.name {
            Some(n) => Some(n.clone()),
            None => None,
        };
        Coin {
            symbol: self.symbol.clone(),
            name,
            quote: self.quote,
            percent_change_24h: self.percent_change_24h,
            market_cap: self.market_cap,
        }
    }
}

pub type CoinList = Vec<Coin>;

/// Cursor position after one step forward over `len` items, wrapping to 0.
pub open spec fn next_index(index: int, len: int) -> int {
    if len <= 0 {
        index
    } else {
        (index + 1) % len
    }
}

/// Cursor position after one step back over `len` items, wrapping to the last.
pub open spec fn prev_index(index: int, len: int) -> int {
    if len <= 0 {
        index
    } else if index >= 1 {
        index - 1
    } else {
        len - 1
    }
}

/// Cursor position after `k` steps forward from `index` over `len` items.
pub open spec fn next_index_n(index: int, len: int, k: nat) -> int
    decreases k,
{
    if k == 0 {
        index
    } else {
        next_index(next_index_n(index, len, (k - 1) as nat), len)
    }
}

proof fn lemma_wrap(x: int, n: int)
    requires
        0 < n,
        0 <= x < 2 * n,
    ensures
        x % n == (if x < n { x } else { x - n }),
{
    if x < n {
        lemma_small_mod(x as nat, n as nat);
    } else {
        lemma_mod_add_multiples_vanish(x - n, n);
        lemma_small_mod((x - n) as nat, n as nat);
    }
}

proof fn lemma_next_steps(c: int, n: int, k: nat)
    requires
        0 < n,
        0 <= c < n,
        k <= n,
    ensures
        next_index_n(c, n, k) == (c + k) % n,
    decreases k,
{
    if k == 0 {
        lemma_small_mod(c as nat, n as nat);
    } else {
        lemma_next_steps(c, n, (k - 1) as nat);
        lemma_wrap(c + k - 1, n);
        lemma_wrap(c + k, n);
        let p = next_index_n(c, n, (k - 1) as nat);
        lemma_wrap(p + 1, n);
    }
}

/// Stepping forward as many times as a non-empty watch-list has items brings
/// the cursor back to where it started; on the way the `k`-th step selects
/// position `(cursor + k) % len`, so each position is visited once, in order.
pub proof fn lemma_next_cycles(w: &Coins)
    requires
        w.wf(),
        w.items().len() > 0,
    ensures
        next_index_n(w.cursor(), w.items().len() as int, w.items().len()) == w.cursor(),
        forall|k: nat|
            k < w.items().len() ==> #[trigger] next_index_n(w.cursor(), w.items().len() as int, k)
                == (w.cursor() + k) % (w.items().len() as int),
        forall|j: nat, k: nat|
            j < k < w.items().len() ==> #[trigger] next_index_n(
                w.cursor(),
                w.items().len() as int,
                j,
            ) != #[trigger] next_index_n(w.cursor(), w.items().len() as int, k),
{
    let c = w.cursor();
    let n = w.items().len() as int;
    lemma_next_steps(c, n, n as nat);
    lemma_wrap(c + n, n);
    assert forall|k: nat| k < n implies #[trigger] next_index_n(c, n, k) == (c + k) % n by {
        lemma_next_steps(c, n, k);
    }
    assert forall|j: nat, k: nat| j < k < n implies #[trigger] next_index_n(c, n, j)
        != #[trigger] next_index_n(c, n, k) by {
        lemma_next_steps(c, n, j);
        lemma_next_steps(c, n, k);
        lemma_wrap(c + j, n);
        lemma_wrap(c + k, n);
    }
}

/// On a non-empty watch-list a step back undoes a step forward, and a step
/// forward undoes a step back.
pub proof fn lemma_prev_undoes_next(w: &Coins)
    requires
        w.wf(),
        w.items().len() > 0,
    ensures
        prev_index(next_index(w.cursor(), w.items().len() as int), w.items().len() as int)
            == w.cursor(),
        next_index(prev_index(w.cursor(), w.items().len() as int), w.items().len() as int)
            == w.cursor(),
{
    let c = w.cursor();
    let n = w.items().len() as int;
    lemma_wrap(c + 1, n);
    lemma_wrap(prev_index(c, n) + 1, n);
}

/// The item under `cursor`, if there is one.
pub open spec fn item_at(items: Seq<Coin>, cursor: int) -> Option<Coin> {
    if 0 <= cursor < items.len() {
        Some(items[cursor])
    } else {
        None
    }
}

/// The symbols of `items`, in order.
pub open spec fn symbols_of(items: Seq<Coin>) -> Seq<Seq<char>> {
    items.map_values(|c: Coin| c.symbol@)
}

/// The coins of `cands`, in order, each taken unless it is missing or a coin
/// with its symbol was taken before.
pub open spec fn take_new(cands: Seq<Option<Coin>>) -> Seq<Coin>
    decreases cands.len(),
{
    if cands.len() == 0 {
        Seq::empty()
    } else {
        let rest = take_new(cands.drop_last());
        match cands.last() {
            Some(c) => if symbols_of(rest).contains(c.symbol@) {
                rest
            } else {
                rest.push(c)
            },
            None => rest,
        }
    }
}

/// Appending a coin appends its symbol, and adds no other.
pub proof fn lemma_symbols_push(items: Seq<Coin>, c: Coin)
    ensures
        symbols_of(items.push(c)) == symbols_of(items).push(c.symbol@),
        forall|s: Seq<char>|
            #[trigger] symbols_of(items.push(c)).contains(s) == (symbols_of(items).contains(s) || s
                == c.symbol@),
{
    let before = symbols_of(items);
    let after = symbols_of(items.push(c));
    assert(after =~= before.push(c.symbol@));
    assert forall|s: Seq<char>| #[trigger] after.contains(s) == (before.contains(s) || s == c.symbol@) by {
        if s == c.symbol@ {
            assert(after[before.len() as int] == s);
        }
        if after.contains(s) {
            let k = choose|k: int| 0 <= k < after.len() && after[k] == s;
            if k < before.len() {
                assert(before[k] == s);
            }
        }
        if before.contains(s) {
            let k = choose|k: int| 0 <= k < before.len() && before[k] == s;
            assert(after[k] == s);
        }
    }
}

/// No two coins taken by [`take_new`] share a symbol; with no candidate at
/// all, nothing is taken.
pub proof fn lemma_take_new(cands: Seq<Option<Coin>>)
    ensures
        symbols_of(take_new(cands)).no_duplicates(),
        (forall|i: int| 0 <= i < cands.len() ==> (#[trigger] cands[i]) is None) ==> take_new(cands)
            == Seq::<Coin>::empty(),
    decreases cands.len(),
{
    if cands.len() > 0 {
        let init = cands.drop_last();
        lemma_take_new(init);
        if forall|i: int| 0 <= i < cands.len() ==> (#[trigger] cands[i]) is None {
            assert forall|i: int| 0 <= i < init.len() implies (#[trigger] init[i]) is None by {
                assert(init[i] == cands[i]);
            }
        }
        match cands.last() {
            Some(c) => lemma_symbols_push(take_new(init), c),
            None => {},
        }
    }
}

/// The watch-list: an ordered sequence of coins fixed at construction and a
/// cursor that selects one of them.
#[derive(Debug)]
pub struct Coins {
    index: usize,
    list: CoinList,
}

impl Coins {
    /// The coins, in order.
    pub closed spec fn items(&self) -> Seq<Coin> {
        self.list@
    }

    /// The cursor position.
    pub closed spec fn cursor(&self) -> int {
        self.index as int
    }

    /// The cursor selects an item, or is 0 on an empty list.
    pub open spec fn wf(&self) -> bool {
        &&& 0 <= self.cursor()
        &&& (self.items().len() == 0 ==> self.cursor() == 0)
        &&& (self.items().len() > 0 ==> self.cursor() < self.items().len())
    }

    pub fn new(list: CoinList) -> (r: Coins)
        ensures
            r.wf(),
            r.items() == list@,
            r.cursor() == 0,
    {
        Coins { list, index: 0 }
    }

    /// The number of coins.
    pub fn len(&self) -> (r: usize)
        ensures
            r == self.items().len(),
    {
        self.list.len()
    }

    /// Whether the list holds no coin.
    pub fn is_empty(&self) -> (r: bool)
        ensures
            r == (self.items().len() == 0),
    {
        self.list.len() == 0
    }

    /// The coin at position `i`.
    pub fn get(&self, i: usize) -> (r: &Coin)
        requires
            i < self.items().len(),
        ensures
            *r == self.items()[i as int],
    {
        &self.list[i]
    }

    /// The selected coin; `None` on an empty list.
    pub fn current(&self) -> (r: Option<Coin>)
        requires
            self.wf(),
        ensures
            r == item_at(self.items(), self.cursor()),
    {
        if self.index < self.list.len() {
            Some(self.list[self.index].snapshot())
        } else {
            None
        }
    }

    /// Moves the cursor one step forward, past the last item back to the first,
    /// and returns the newly selected coin. Does nothing on an empty list.
    pub fn next(&mut self) -> (r: Option<Coin>)
        requires
            old(self).wf(),
        ensures
            final(self).wf(),
            final(self).items() == old(self).items(),
            final(self).cursor() == next_index(old(self).cursor(), old(self).items().len() as int),
            r == item_at(final(self).items(), final(self).cursor()),
    {
        let len = self.list.len();
        if len > 0 {
            self.index = (self.index + 1) % len;
        }
        self.current()
    }

    /// Moves the cursor one step back, from the first item to the last, and
    /// returns the newly selected coin. Does nothing on an empty list.
    pub fn prev(&mut self) -> (r: Option<Coin>)
        requires
            old(self).wf(),
        ensures
            final(self).wf(),
            final(self).items() == old(self).items(),
            final(self).cursor() == prev_index(old(self).cursor(), old(self).items().len() as int),
            r == item_at(final(self).items(), final(self).cursor()),
    {
        let len = self.list.len();
        if len > 0 {
            self.index = if self.index >= 1 {
                self.index - 1
            } else {
                len - 1
            };
        }
        self.current()
    }

    /// The symbol of every coin, in list order.
    pub fn get_symbols(&self) -> (r: Vec<String>)
        ensures
            r@.len() == self.items().len(),
            forall|i: int| 0 <= i < r@.len() ==> r@[i] == #[trigger] self.items()[i].symbol,
    {
        let mut out: Vec<String> = Vec::new();
        let mut i: usize = 0;
        while i < self.list.len()
            invariant
                i <= self.list@.len(),
                out@.len() == i,
                forall|j: int| 0 <= j < i ==> out@[j] == #[trigger] self.list@[j].symbol,
            decreases self.list@.len() - i,
        {
            out.push(self.list[i].symbol.clone());
            i = i + 1;
        }
        out
    }
}

/// Whether one of `coins` has the symbol `s`.
pub fn has_symbol(coins: &Vec<Coin>, s: &String) -> (r: bool)
    ensures
        r == symbols_of(coins@).contains(s@),
{
    let mut i: usize = 0;
    while i < coins.len()
        invariant
            i <= coins@.len(),
            forall|j: int| 0 <= j < i ==> symbols_of(coins@)[j] != s@,
        decreases coins@.len() - i,
    {
        if coins[i].symbol == *s {
            assert(symbols_of(coins@)[i as int] == s@);
            return true;
        }
        i = i + 1;
    }
    false
}

impl Default for Coins {
    fn default() -> (r: Coins)
        ensures
            r.wf(),
            r.items().len() == 0,
            r.cursor() == 0,
    {
        Coins { index: 0, list: Vec::new() }
    }
}

} // verus!
