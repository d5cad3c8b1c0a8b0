//! Cumulative volume delta: per-symbol running sum of signed trade size.

use crate::store::{
    no_symbols, symbol_entries, symbol_map_clear, symbol_map_get, symbol_map_insert,
    symbol_map_new, symbol_map_remove, SymbolMap,
};
use crate::types::{CVDMetrics, Trade};
use crate::utils::{fits_i128, SCALE};
use vstd::prelude::*;

verus! {

/// Unicode uppercase of a string, as `str::to_uppercase` gives it.
pub uninterp spec fn upper_of(s: Seq<char>) -> Seq<char>;

/// Whole units of a price, as a cast to an unsigned integer gives them.
pub open spec fn whole_units(price: int) -> int {
    if price > 0 {
        price / (SCALE as int)
    } else {
        0
    }
}

/// Side of a trade whose tag, in Unicode uppercase, is `upper`: the tag
/// where it reads BUY or SELL; otherwise a stand-in that is no
/// classification of the aggressor: even whole price units count as buys,
/// odd ones as sells.
pub open spec fn tag_rule(upper: Seq<char>, price: int) -> bool {
    if upper == "BUY"@ {
        true
    } else if upper == "SELL"@ {
        false
    } else {
        whole_units(price) % 2 == 0
    }
}

/// Side of a trade: `true` for a buy. A trade without a tag takes the
/// price-parity stand-in of `tag_rule`.
pub open spec fn is_buy(t: Trade) -> bool {
    match t.side {
        Some(s) => tag_rule(upper_of(s@), t.price as int),
        None => whole_units(t.price as int) % 2 == 0,
    }
}

/// The word that metrics carry for a side.
pub open spec fn side_word(buy: bool) -> Seq<char> {
    if buy {
        "BUY"@
    } else {
        "SELL"@
    }
}

/// Size of a trade signed by its side.
pub open spec fn signed_size(t: Trade) -> int {
    if is_buy(t) {
        t.size as int
    } else {
        -t.size
    }
}

/// Running total of `symbol` in `m`; zero for a symbol not yet seen.
pub open spec fn cvd_before(m: Map<Seq<char>, (i128, i128)>, symbol: Seq<char>) -> int {
    if m.contains_key(symbol) {
        m[symbol].0 as int
    } else {
        0
    }
}

/// 1 for a buy, -1 for a sell.
pub open spec fn direction(t: Trade) -> i128 {
    if is_buy(t) {
        1i128
    } else {
        -1i128
    }
}

/// A trade is taken where price and size are positive and the new total fits.
pub open spec fn cvd_accepts(m: Map<Seq<char>, (i128, i128)>, t: Trade) -> bool {
    &&& t.price > 0
    &&& t.size > 0
    &&& fits_i128(cvd_before(m, t.symbol@) + signed_size(t))
}

/// Per-symbol state after one trade: the total and the last side (1 for a
/// buy, -1 for a sell).
pub open spec fn cvd_step(m: Map<Seq<char>, (i128, i128)>, t: Trade) -> Map<Seq<char>, (i128, i128)> {
    if cvd_accepts(m, t) {
        m.insert(
            t.symbol@,
            ((cvd_before(m, t.symbol@) + signed_size(t)) as i128, direction(t)),
        )
    } else {
        m
    }
}

/// Relies on `str::to_uppercase`: the result depends on the characters alone.
#[verifier::external_body]
fn uppercase(s: &str) -> (r: String)
    ensures
        r@ == upper_of(s@),
{
    s.to_uppercase()
}

/// Whether whole price units are even; a price that is not positive counts
/// as zero units.
fn even_units(price: i64) -> (r: bool)
    ensures
        r == (whole_units(price as int) % 2 == 0),
{
    if price > 0 {
        (price / SCALE) % 2 == 0
    } else {
        true
    }
}

/// Side of a trade from its tag already in uppercase: `true` for a buy.
pub fn buy_from_upper_tag(upper: &str, price: i64) -> (r: bool)
    ensures
        r == tag_rule(upper@, price as int),
{
    let text = upper.to_owned();
    if text == String::from_str("BUY") {
        true
    } else if text == String::from_str("SELL") {
        false
    } else {
        even_units(price)
    }
}

/// The side of a trade as `is_buy` states it.
fn buy_side(trade: &Trade) -> (r: bool)
    ensures
        r == is_buy(*trade),
{
    match &trade.side {
        Some(s) => {
            let upper = uppercase(s.as_str());
            buy_from_upper_tag(upper.as_str(), trade.price)
        },
        None => even_units(trade.price),
    }
}

/// Cumulative volume delta per symbol.
pub struct CVDEngine {
    /// Per symbol: the running total and the last side (1 buy, -1 sell).
    pub state: SymbolMap,
}

impl CVDEngine {
    /// Per-symbol state: running total and last side.
    pub open spec fn totals(&self) -> Map<Seq<char>, (i128, i128)> {
        symbol_entries(self.state)
    }

    /// An engine that holds no symbol.
    pub fn new() -> (r: CVDEngine)
        ensures
            r.totals() == no_symbols(),
    {
        CVDEngine { state: symbol_map_new() }
    }

    /// Adds the trade's size to its symbol's total, signed by its side.
    /// Rejects a trade without positive price and size, or whose total
    /// would leave `i128`; a rejected trade changes nothing.
    pub fn on_trade(&mut self, trade: &Trade) -> (r: Option<CVDMetrics>)
        ensures
            final(self).totals() == cvd_step(old(self).totals(), *trade),
            (r is Some) == cvd_accepts(old(self).totals(), *trade),
            r matches Some(m) ==> {
                &&& m.cvd == cvd_before(old(self).totals(), trade.symbol@) + signed_size(*trade)
                &&& m.last_side@ == side_word(is_buy(*trade))
                &&& m.last_size == trade.size
                &&& m.timestamp == trade.ts
            },
    {
        if trade.price <= 0 || trade.size <= 0 {
            return None;
        }
        let buy = buy_side(trade);
        let prev: i128 = match symbol_map_get(&self.state, trade.symbol.as_str()) {
            Some(v) => v.0,
            None => 0,
        };
        let delta: i128 = if buy {
            trade.size as i128
        } else {
            -(trade.size as i128)
        };
        let cvd = match prev.checked_add(delta) {
            Some(v) => v,
            None => return None,
        };
        let direction: i128 = if buy {
            1
        } else {
            -1
        };
        symbol_map_insert(&mut self.state, trade.symbol.as_str(), (cvd, direction));
        let last_side = if buy {
            String::from_str("BUY")
        } else {
            String::from_str("SELL")
        };
        Some(CVDMetrics { cvd, last_side, last_size: trade.size, timestamp: trade.ts })
    }

    /// The running total of a symbol, if it has one.
    pub fn get_cvd(&self, symbol: &str) -> (r: Option<i128>)
        ensures
            r == (if self.totals().contains_key(symbol@) {
                Some(self.totals()[symbol@].0)
            } else {
                None
            }),
    {
        match symbol_map_get(&self.state, symbol) {
            Some(v) => Some(v.0),
            None => None,
        }
    }

    /// Forgets one symbol.
    pub fn reset_symbol(&mut self, symbol: &str)
        ensures
            final(self).totals() == old(self).totals().remove(symbol@),
    {
        symbol_map_remove(&mut self.state, symbol);
    }

    /// Forgets every symbol.
    pub fn reset_all(&mut self)
        ensures
            final(self).totals() == no_symbols(),
    {
        symbol_map_clear(&mut self.state);
    }

    /// "BUY" or "SELL" for the trade, as `is_buy` decides.
    pub fn determine_side(&self, trade: &Trade) -> (r: String)
        ensures
            r@ == side_word(is_buy(*trade)),
    {
        if buy_side(trade) {
            String::from_str("BUY")
        } else {
            String::from_str("SELL")
        }
    }
}

} // verus!
