//! Volume-weighted average price per symbol, from trades or from bars.

use crate::store::{
    no_symbols, symbol_entries, symbol_map_clear, symbol_map_get, symbol_map_insert,
    symbol_map_new, symbol_map_remove, SymbolMap,
};
use crate::types::{Bar, Trade, VWAPMetrics};
use crate::utils::{fits_i128, safe_div, safe_div_spec, trunc_div};
use vstd::prelude::*;

verus! {

/// Sum of price times size of `symbol` in `m`; zero for a symbol not yet seen.
pub open spec fn pv_before(m: Map<Seq<char>, (i128, i128)>, symbol: Seq<char>) -> int {
    if m.contains_key(symbol) {
        m[symbol].0 as int
    } else {
        0
    }
}

/// Sum of size of `symbol` in `m`; zero for a symbol not yet seen.
pub open spec fn v_before(m: Map<Seq<char>, (i128, i128)>, symbol: Seq<char>) -> int {
    if m.contains_key(symbol) {
        m[symbol].1 as int
    } else {
        0
    }
}

/// Whether both sums of `symbol` still fit after adding `pv` and `v`.
pub open spec fn sums_fit(m: Map<Seq<char>, (i128, i128)>, symbol: Seq<char>, pv: int, v: int) -> bool {
    fits_i128(pv_before(m, symbol) + pv) && fits_i128(v_before(m, symbol) + v)
}

/// `m` with `pv` and `v` added to the sums of `symbol`.
pub open spec fn accumulate(
    m: Map<Seq<char>, (i128, i128)>,
    symbol: Seq<char>,
    pv: int,
    v: int,
) -> Map<Seq<char>, (i128, i128)> {
    m.insert(symbol, ((pv_before(m, symbol) + pv) as i128, (v_before(m, symbol) + v) as i128))
}

/// A trade is taken where price and size are positive and both sums fit.
pub open spec fn trade_accepted(m: Map<Seq<char>, (i128, i128)>, t: Trade) -> bool {
    &&& t.price > 0
    &&& t.size > 0
    &&& sums_fit(m, t.symbol@, t.price * t.size, t.size as int)
}

/// Per-symbol sums after one trade.
pub open spec fn vwap_trade_step(m: Map<Seq<char>, (i128, i128)>, t: Trade) -> Map<
    Seq<char>,
    (i128, i128),
> {
    if trade_accepted(m, t) {
        accumulate(m, t.symbol@, t.price * t.size, t.size as int)
    } else {
        m
    }
}

/// `(high + low + close) / 3`, rounded toward zero.
pub open spec fn typical_price(b: Bar) -> int {
    trunc_div(b.high + b.low + b.close, 3)
}

/// A bar is taken where its volume is positive and both sums fit.
pub open spec fn bar_accepted(m: Map<Seq<char>, (i128, i128)>, b: Bar) -> bool {
    &&& b.volume > 0
    &&& sums_fit(m, b.symbol@, typical_price(b) * b.volume, b.volume as int)
}

/// Per-symbol sums after one bar.
pub open spec fn vwap_bar_step(m: Map<Seq<char>, (i128, i128)>, b: Bar) -> Map<
    Seq<char>,
    (i128, i128),
> {
    if bar_accepted(m, b) {
        accumulate(m, b.symbol@, typical_price(b) * b.volume, b.volume as int)
    } else {
        m
    }
}

/// The metrics of a symbol whose sums are `pv_sum` and `v_sum`.
pub open spec fn metrics_of(m: VWAPMetrics, pv_sum: int, v_sum: int) -> bool {
    &&& m.pv_sum == pv_sum
    &&& m.v_sum == v_sum
    &&& m.vwap == safe_div_spec(pv_sum, v_sum)
    &&& m.session_id is None
}

/// Sum of price times size over the first `k` trades.
pub open spec fn batch_pv(trades: Seq<Trade>, k: int) -> int
    decreases k,
{
    if k <= 0 {
        0
    } else {
        batch_pv(trades, k - 1) + trades[k - 1].price * trades[k - 1].size
    }
}

/// Sum of size over the first `k` trades.
pub open spec fn batch_v(trades: Seq<Trade>, k: int) -> int
    decreases k,
{
    if k <= 0 {
        0
    } else {
        batch_v(trades, k - 1) + trades[k - 1].size
    }
}

proof fn lemma_product_fits(a: int, b: int)
    requires
        -0x8000_0000_0000_0000 <= a <= 0x8000_0000_0000_0000,
        -0x8000_0000_0000_0000 <= b <= 0x8000_0000_0000_0000,
    ensures
        -0x4000_0000_0000_0000_0000_0000_0000_0000 <= a * b <= 0x4000_0000_0000_0000_0000_0000_0000_0000,
{
    assert(-0x4000_0000_0000_0000_0000_0000_0000_0000 <= a * b <= 0x4000_0000_0000_0000_0000_0000_0000_0000)
        by (nonlinear_arith)
        requires
            -0x8000_0000_0000_0000 <= a <= 0x8000_0000_0000_0000,
            -0x8000_0000_0000_0000 <= b <= 0x8000_0000_0000_0000,
    ;
}

/// Running VWAP per symbol.
pub struct VWAPEngine {
    /// Per symbol: the sum of price times size and the sum of size.
    pub state: SymbolMap,
}

impl VWAPEngine {
    /// Per-symbol sums: price times size, and size.
    pub open spec fn sums(&self) -> Map<Seq<char>, (i128, i128)> {
        symbol_entries(self.state)
    }

    /// An engine that holds no symbol.
    pub fn new() -> (r: VWAPEngine)
        ensures
            r.sums() == no_symbols(),
    {
        VWAPEngine { state: symbol_map_new() }
    }

    /// Adds `pv` and `v` to the sums of `symbol`, or changes nothing where
    /// a sum would leave `i128`.
    fn add_to_symbol(&mut self, symbol: &str, pv: i128, v: i128) -> (r: Option<VWAPMetrics>)
        ensures
            (r is Some) == sums_fit(old(self).sums(), symbol@, pv as int, v as int),
            r is Some ==> final(self).sums() == accumulate(old(self).sums(), symbol@, pv as int, v as int),
            r is None ==> final(self).sums() == old(self).sums(),
            r matches Some(m) ==> metrics_of(
                m,
                pv_before(old(self).sums(), symbol@) + pv,
                v_before(old(self).sums(), symbol@) + v,
            ),
    {
        let (pv0, v0): (i128, i128) = match symbol_map_get(&self.state, symbol) {
            Some(e) => e,
            None => (0, 0),
        };
        let pv_sum = match pv0.checked_add(pv) {
            Some(x) => x,
            None => return None,
        };
        let v_sum = match v0.checked_add(v) {
            Some(x) => x,
            None => return None,
        };
        symbol_map_insert(&mut self.state, symbol, (pv_sum, v_sum));
        Some(VWAPMetrics { vwap: safe_div(pv_sum, v_sum), pv_sum, v_sum, session_id: None })
    }

    /// Adds one trade to its symbol's sums. Rejects a trade without positive
    /// price and size, or whose sums would leave `i128`; a rejected trade
    /// changes nothing.
    pub fn on_trade(&mut self, trade: &Trade) -> (r: Option<VWAPMetrics>)
        ensures
            final(self).sums() == vwap_trade_step(old(self).sums(), *trade),
            (r is Some) == trade_accepted(old(self).sums(), *trade),
            r matches Some(m) ==> metrics_of(
                m,
                final(self).sums()[trade.symbol@].0 as int,
                final(self).sums()[trade.symbol@].1 as int,
            ),
    {
        if trade.price <= 0 || trade.size <= 0 {
            return None;
        }
        proof {
            lemma_product_fits(trade.price as int, trade.size as int);
        }
        let pv: i128 = trade.price as i128 * trade.size as i128;
        self.add_to_symbol(trade.symbol.as_str(), pv, trade.size as i128)
    }

    /// Adds one bar, weighting its typical price by its volume. Rejects a
    /// bar without positive volume, or whose sums would leave `i128`.
    pub fn on_bar(&mut self, bar: &Bar) -> (r: Option<VWAPMetrics>)
        ensures
            final(self).sums() == vwap_bar_step(old(self).sums(), *bar),
            (r is Some) == bar_accepted(old(self).sums(), *bar),
            r matches Some(m) ==> metrics_of(
                m,
                final(self).sums()[bar.symbol@].0 as int,
                final(self).sums()[bar.symbol@].1 as int,
            ),
    {
        if bar.volume <= 0 {
            return None;
        }
        let total: i128 = bar.high as i128 + bar.low as i128 + bar.close as i128;
        let tp: i128 = safe_div(total, 3);
        proof {
            let t = total as int;
            if t >= 0 {
                assert(t / 3 <= 0x8000_0000_0000_0000) by (nonlinear_arith)
                    requires 0 <= t <= 3 * 0x8000_0000_0000_0000;
            } else {
                assert((-t) / 3 <= 0x8000_0000_0000_0000) by (nonlinear_arith)
                    requires 0 < -t <= 3 * 0x8000_0000_0000_0000;
                assert((-t) / 3 >= 0) by (nonlinear_arith)
                    requires 0 < -t;
            }
            lemma_product_fits(tp as int, bar.volume as int);
        }
        let pv: i128 = tp * bar.volume as i128;
        self.add_to_symbol(bar.symbol.as_str(), pv, bar.volume as i128)
    }

    /// The VWAP of a symbol, if it has sums.
    pub fn get_vwap(&self, symbol: &str) -> (r: Option<i128>)
        ensures
            r == (if self.sums().contains_key(symbol@) {
                Some(
                    safe_div_spec(
                        self.sums()[symbol@].0 as int,
                        self.sums()[symbol@].1 as int,
                    ) as i128,
                )
            } else {
                None
            }),
    {
        match symbol_map_get(&self.state, symbol) {
            Some(e) => Some(safe_div(e.0, e.1)),
            None => None,
        }
    }

    /// Forgets one symbol.
    pub fn reset_symbol(&mut self, symbol: &str)
        ensures
            final(self).sums() == old(self).sums().remove(symbol@),
    {
        symbol_map_remove(&mut self.state, symbol);
    }

    /// Forgets every symbol.
    pub fn reset_all(&mut self)
        ensures
            final(self).sums() == no_symbols(),
    {
        symbol_map_clear(&mut self.state);
    }

    /// Running VWAP over `trades` alone, from sums of zero: one result per
    /// trade, in order. The engine's own sums are neither read nor changed.
    /// Where a sum would leave `i128`, the results stop before that trade.
    pub fn on_trade_batch(&self, trades: Vec<Trade>) -> (r: Vec<VWAPMetrics>)
        ensures
            r@.len() <= trades@.len(),
            forall|k: int|
                0 <= k < r@.len() ==> metrics_of(
                    #[trigger] r@[k],
                    batch_pv(trades@, k + 1),
                    batch_v(trades@, k + 1),
                ),
            r@.len() < trades@.len() ==> !(fits_i128(batch_pv(trades@, r@.len() as int + 1)) && fits_i128(
                batch_v(trades@, r@.len() as int + 1),
            )),
    {
        let mut results: Vec<VWAPMetrics> = Vec::new();
        let mut pv_cumsum: i128 = 0;
        let mut v_cumsum: i128 = 0;
        let mut i: usize = 0;
        while i < trades.len()
            invariant
                0 <= i <= trades@.len(),
                results@.len() == i,
                pv_cumsum == batch_pv(trades@, i as int),
                v_cumsum == batch_v(trades@, i as int),
                forall|k: int|
                    0 <= k < i ==> metrics_of(
                        #[trigger] results@[k],
                        batch_pv(trades@, k + 1),
                        batch_v(trades@, k + 1),
                    ),
            decreases trades@.len() - i,
        {
            let t = &trades[i];
            proof {
                lemma_product_fits(t.price as int, t.size as int);
            }
            let pv: i128 = t.price as i128 * t.size as i128;
            let next_pv = match pv_cumsum.checked_add(pv) {
                Some(x) => x,
                None => return results,
            };
            let next_v = match v_cumsum.checked_add(t.size as i128) {
                Some(x) => x,
                None => return results,
            };
            pv_cumsum = next_pv;
            v_cumsum = next_v;
            results.push(
                VWAPMetrics {
                    vwap: safe_div(pv_cumsum, v_cumsum),
                    pv_sum: pv_cumsum,
                    v_sum: v_cumsum,
                    session_id: None,
                },
            );
            i += 1;
        }
        results
    }
}

} // verus!
