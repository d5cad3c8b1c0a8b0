//! Laws that relate several calls of the engines, proved over the same
//! spec functions that the engines' contracts use.

use crate::cvd::{cvd_accepts, cvd_before, cvd_step, signed_size, upper_of};
use crate::heatmap::{deposit_levels, deposit_snapshot, lists_cells};
use crate::store::{no_cells, no_symbols, CellKey};
use crate::types::{Bar, Level, Trade};
use crate::utils::{bucket_of, quantize_spec};
use crate::vwap::{trade_accepted, vwap_bar_step, vwap_trade_step};
use vstd::prelude::*;

verus! {

/// Per-symbol CVD state after feeding `trades` in order.
pub open spec fn run_cvd(m: Map<Seq<char>, (i128, i128)>, trades: Seq<Trade>) -> Map<
    Seq<char>,
    (i128, i128),
>
    decreases trades.len(),
{
    if trades.len() == 0 {
        m
    } else {
        cvd_step(run_cvd(m, trades.drop_last()), trades.last())
    }
}

/// The trade carries a side tag that reads BUY or SELL.
pub open spec fn explicit_side(t: Trade) -> bool {
    match t.side {
        Some(s) => upper_of(s@) == "BUY"@ || upper_of(s@) == "SELL"@,
        None => false,
    }
}

/// Size of the trades of `symbol` tagged BUY, less that of those tagged SELL.
pub open spec fn tagged_delta(trades: Seq<Trade>, symbol: Seq<char>) -> int
    decreases trades.len(),
{
    if trades.len() == 0 {
        0
    } else {
        let t = trades.last();
        let own: int = if t.symbol@ != symbol {
            0
        } else if t.side matches Some(s) && upper_of(s@) == "BUY"@ {
            t.size as int
        } else {
            -t.size
        };
        tagged_delta(trades.drop_last(), symbol) + own
    }
}

proof fn lemma_tagged_delta_bound(trades: Seq<Trade>, symbol: Seq<char>)
    requires
        forall|i: int| 0 <= i < trades.len() ==> (#[trigger] trades[i]).size > 0,
    ensures
        -(trades.len() as int) * 0x8000_0000_0000_0000 <= tagged_delta(trades, symbol) <= (
        trades.len() as int) * 0x8000_0000_0000_0000,
    decreases trades.len(),
{
    if trades.len() > 0 {
        let p = trades.drop_last();
        assert forall|i: int| 0 <= i < p.len() implies (#[trigger] p[i]).size > 0 by {
            assert(p[i] == trades[i]);
        }
        lemma_tagged_delta_bound(p, symbol);
    }
}

proof fn lemma_explicit_signed_size(t: Trade)
    requires
        explicit_side(t),
    ensures
        signed_size(t) == (if t.side matches Some(s) && upper_of(s@) == "BUY"@ {
            t.size as int
        } else {
            -t.size
        }),
{
}

/// The trades of `symbol`, in order.
pub open spec fn trades_of(trades: Seq<Trade>, symbol: Seq<char>) -> Seq<Trade>
    decreases trades.len(),
{
    if trades.len() == 0 {
        trades
    } else if trades.last().symbol@ == symbol {
        trades_of(trades.drop_last(), symbol).push(trades.last())
    } else {
        trades_of(trades.drop_last(), symbol)
    }
}

/// Trades that the engine takes whatever came before: positive price and
/// size, and a BUY or SELL tag; few enough that no total can leave `i128`.
pub open spec fn tagged_stream(trades: Seq<Trade>) -> bool {
    &&& trades.len() <= 0xFFFF_FFFF_FFFF_FFFF
    &&& forall|i: int|
        0 <= i < trades.len() ==> (#[trigger] trades[i]).price > 0 && trades[i].size > 0
            && explicit_side(trades[i])
}

proof fn lemma_tagged_stream_prefix(trades: Seq<Trade>)
    requires
        tagged_stream(trades),
        trades.len() > 0,
    ensures
        tagged_stream(trades.drop_last()),
        trades.last().price > 0 && trades.last().size > 0 && explicit_side(trades.last()),
{
    let p = trades.drop_last();
    assert forall|i: int| 0 <= i < p.len() implies (#[trigger] p[i]).price > 0 && p[i].size > 0
        && explicit_side(p[i]) by {
        assert(p[i] == trades[i]);
    }
    assert(trades[trades.len() - 1] == trades.last());
}

/// Only the trades of a symbol count toward its delta.
proof fn lemma_tagged_delta_own(trades: Seq<Trade>, symbol: Seq<char>)
    ensures
        tagged_delta(trades, symbol) == tagged_delta(trades_of(trades, symbol), symbol),
    decreases trades.len(),
{
    if trades.len() > 0 {
        let p = trades.drop_last();
        lemma_tagged_delta_own(p, symbol);
        if trades.last().symbol@ == symbol {
            let q = trades_of(p, symbol).push(trades.last());
            assert(q.drop_last() =~= trades_of(p, symbol));
        }
    }
}

/// Fed trades with positive price and size and a BUY or SELL tag, from an
/// empty state, the engine holds exactly the symbols traded, and for each
/// the size bought less the size sold.
pub proof fn law_cvd_is_tagged_delta(trades: Seq<Trade>, symbol: Seq<char>)
    requires
        tagged_stream(trades),
    ensures
        cvd_before(run_cvd(no_symbols(), trades), symbol) == tagged_delta(trades, symbol),
        run_cvd(no_symbols(), trades).contains_key(symbol) == (trades_of(trades, symbol).len() > 0),
    decreases trades.len(),
{
    if trades.len() > 0 {
        let p = trades.drop_last();
        let t = trades.last();
        lemma_tagged_stream_prefix(trades);
        law_cvd_is_tagged_delta(p, symbol);
        law_cvd_is_tagged_delta(p, t.symbol@);
        assert forall|i: int| 0 <= i < p.len() implies (#[trigger] p[i]).size > 0 by {}
        lemma_tagged_delta_bound(p, t.symbol@);
        lemma_explicit_signed_size(t);
        let prev = run_cvd(no_symbols(), p);
        assert(cvd_accepts(prev, t));
    } else {
        assert(trades_of(trades, symbol).len() == 0);
    }
}

/// Reordering a stream so that each symbol keeps its own trades in order
/// leaves every symbol's presence and total as they were.
pub proof fn law_cvd_reorder(a: Seq<Trade>, b: Seq<Trade>, symbol: Seq<char>)
    requires
        tagged_stream(a),
        tagged_stream(b),
        trades_of(a, symbol) == trades_of(b, symbol),
    ensures
        run_cvd(no_symbols(), a).contains_key(symbol) == run_cvd(no_symbols(), b).contains_key(symbol),
        cvd_before(run_cvd(no_symbols(), a), symbol) == cvd_before(run_cvd(no_symbols(), b), symbol),
{
    law_cvd_is_tagged_delta(a, symbol);
    law_cvd_is_tagged_delta(b, symbol);
    lemma_tagged_delta_own(a, symbol);
    lemma_tagged_delta_own(b, symbol);
}

/// Trades of two different symbols give the same state in either order.
pub proof fn law_cvd_symbols_commute(m: Map<Seq<char>, (i128, i128)>, a: Trade, b: Trade)
    requires
        a.symbol@ != b.symbol@,
    ensures
        cvd_step(cvd_step(m, a), b) == cvd_step(cvd_step(m, b), a),
{
    assert(cvd_before(cvd_step(m, a), b.symbol@) == cvd_before(m, b.symbol@));
    assert(cvd_before(cvd_step(m, b), a.symbol@) == cvd_before(m, a.symbol@));
    assert(cvd_step(cvd_step(m, a), b) =~= cvd_step(cvd_step(m, b), a));
}

/// A trade without positive price and size leaves CVD and VWAP state as it was.
pub proof fn law_invalid_trade_ignored(m: Map<Seq<char>, (i128, i128)>, t: Trade)
    requires
        t.price <= 0 || t.size <= 0,
    ensures
        !cvd_accepts(m, t),
        cvd_step(m, t) == m,
        !trade_accepted(m, t),
        vwap_trade_step(m, t) == m,
{
}

/// A trade leaves the state of every other symbol as it was, in both the
/// CVD and the VWAP engine; so does a bar in the VWAP engine.
pub proof fn law_symbol_isolation(
    m: Map<Seq<char>, (i128, i128)>,
    t: Trade,
    b: Bar,
    other: Seq<char>,
)
    requires
        other != t.symbol@,
        other != b.symbol@,
    ensures
        cvd_step(m, t).contains_key(other) == m.contains_key(other),
        m.contains_key(other) ==> cvd_step(m, t)[other] == m[other],
        vwap_trade_step(m, t).contains_key(other) == m.contains_key(other),
        m.contains_key(other) ==> vwap_trade_step(m, t)[other] == m[other],
        vwap_bar_step(m, b).contains_key(other) == m.contains_key(other),
        m.contains_key(other) ==> vwap_bar_step(m, b)[other] == m[other],
{
}

/// Resetting a symbol that the engine does not hold changes nothing.
pub proof fn law_reset_unknown_symbol(m: Map<Seq<char>, (i128, i128)>, symbol: Seq<char>)
    requires
        !m.contains_key(symbol),
    ensures
        m.remove(symbol) == m,
{
    assert(m.remove(symbol) =~= m);
}

/// After a full reset no symbol and no cell is held, and a bucket lists no tile.
pub proof fn law_reset_forgets(symbol: Seq<char>, k: CellKey, bucket: u64, items: Seq<(i128, i128, bool)>)
    requires
        lists_cells(no_cells(), bucket, None, items),
    ensures
        !no_symbols().contains_key(symbol),
        !no_cells().contains_key(k),
        items.len() == 0,
{
    if items.len() > 0 {
        assert(no_cells().contains_key((bucket, items[0].0, items[0].2)));
    }
}

proof fn lemma_deposit_levels_keeps(
    g: Map<CellKey, i128>,
    bucket: u64,
    tick_size: int,
    levels: Seq<Level>,
    is_bid: bool,
    k: CellKey,
)
    requires
        g.contains_key(k),
    ensures
        deposit_levels(g, bucket, tick_size, levels, is_bid).contains_key(k),
    decreases levels.len(),
{
    if levels.len() > 0 {
        lemma_deposit_levels_keeps(g, bucket, tick_size, levels.drop_last(), is_bid, k);
    }
}

/// Two snapshots whose timestamps fall in one bucket feed the same tiles:
/// every cell of the bucket after the first is still a cell of the bucket
/// after the second.
pub proof fn law_same_bucket_accumulates(
    g: Map<CellKey, i128>,
    bucket_ms: u64,
    tick_size: int,
    ts1: u64,
    bids1: Seq<Level>,
    asks1: Seq<Level>,
    ts2: u64,
    bids2: Seq<Level>,
    asks2: Seq<Level>,
    k: CellKey,
)
    requires
        bucket_ms > 0,
        bucket_of(ts1 as int, bucket_ms as int) == bucket_of(ts2 as int, bucket_ms as int),
        k.0 == bucket_of(ts1 as int, bucket_ms as int),
        deposit_snapshot(g, k.0, tick_size, bids1, asks1).contains_key(k),
    ensures
        ({
            let b2 = bucket_of(ts2 as int, bucket_ms as int) as u64;
            let g1 = deposit_snapshot(g, k.0, tick_size, bids1, asks1);
            &&& b2 == k.0
            &&& deposit_snapshot(g1, b2, tick_size, bids2, asks2).contains_key(k)
        }),
{
    let b2 = bucket_of(ts2 as int, bucket_ms as int) as u64;
    let g1 = deposit_snapshot(g, k.0, tick_size, bids1, asks1);
    lemma_deposit_levels_keeps(g1, b2, tick_size, bids2, true, k);
    lemma_deposit_levels_keeps(deposit_levels(g1, b2, tick_size, bids2, true), b2, tick_size, asks2, false, k);
}

/// Summed size of the levels of one side that fall in cell `k`.
pub open spec fn cell_sum(levels: Seq<Level>, bucket: u64, tick_size: int, is_bid: bool, k: CellKey) -> int
    decreases levels.len(),
{
    if levels.len() == 0 {
        0
    } else {
        let last = levels.last();
        let own: int = if k == (bucket, quantize_spec(last.price as int, tick_size) as i128, is_bid) {
            last.size as int
        } else {
            0
        };
        cell_sum(levels.drop_last(), bucket, tick_size, is_bid, k) + own
    }
}

/// Number of levels of one side that fall in cell `k`.
pub open spec fn cell_hits(levels: Seq<Level>, bucket: u64, tick_size: int, is_bid: bool, k: CellKey) -> nat
    decreases levels.len(),
{
    if levels.len() == 0 {
        0
    } else {
        let last = levels.last();
        let own: nat = if k == (bucket, quantize_spec(last.price as int, tick_size) as i128, is_bid) {
            1
        } else {
            0
        };
        cell_hits(levels.drop_last(), bucket, tick_size, is_bid, k) + own
    }
}

pub open spec fn size_in(g: Map<CellKey, i128>, k: CellKey) -> int {
    if g.contains_key(k) {
        g[k] as int
    } else {
        0
    }
}

/// Adding one side of a book into a cell adds its levels' sizes, while the
/// total stays far from the bounds of `i128`.
proof fn lemma_deposit_levels_sum(
    g: Map<CellKey, i128>,
    bucket: u64,
    tick_size: int,
    levels: Seq<Level>,
    is_bid: bool,
    k: CellKey,
    c: int,
)
    requires
        0 <= c,
        c + levels.len() <= 0xFFFF_FFFF_FFFF_FFFF,
        -c * 0x8000_0000_0000_0000 <= size_in(g, k) <= c * 0x8000_0000_0000_0000,
    ensures
        ({
            let g2 = deposit_levels(g, bucket, tick_size, levels, is_bid);
            &&& g2.contains_key(k) == (g.contains_key(k) || cell_hits(levels, bucket, tick_size, is_bid, k) > 0)
            &&& size_in(g2, k) == size_in(g, k) + cell_sum(levels, bucket, tick_size, is_bid, k)
            &&& -(c + levels.len()) * 0x8000_0000_0000_0000 <= size_in(g2, k) <= (c + levels.len())
                * 0x8000_0000_0000_0000
        }),
    decreases levels.len(),
{
    if levels.len() > 0 {
        lemma_deposit_levels_sum(g, bucket, tick_size, levels.drop_last(), is_bid, k, c);
    }
}

/// Two snapshots whose timestamps fall in one bucket, fed into a grid that
/// holds nothing of that bucket, share one tile set: each cell of the bucket
/// is held exactly where a level of either snapshot falls in it, and holds
/// the summed size of those levels.
pub proof fn law_same_bucket_sums(
    g: Map<CellKey, i128>,
    bucket_ms: u64,
    tick_size: int,
    ts1: u64,
    bids1: Seq<Level>,
    asks1: Seq<Level>,
    ts2: u64,
    bids2: Seq<Level>,
    asks2: Seq<Level>,
    k: CellKey,
)
    requires
        bucket_ms > 0,
        bucket_of(ts1 as int, bucket_ms as int) == bucket_of(ts2 as int, bucket_ms as int),
        k.0 == bucket_of(ts1 as int, bucket_ms as int),
        forall|c: CellKey| #[trigger] g.contains_key(c) ==> c.0 != k.0,
        bids1.len() + asks1.len() + bids2.len() + asks2.len() <= 0xFFFF_FFFF_FFFF_FFFF,
    ensures
        ({
            let b = k.0;
            let g2 = deposit_snapshot(deposit_snapshot(g, b, tick_size, bids1, asks1), b, tick_size, bids2, asks2);
            &&& g2.contains_key(k) == (cell_hits(bids1, b, tick_size, true, k) + cell_hits(asks1, b, tick_size, false, k)
                + cell_hits(bids2, b, tick_size, true, k) + cell_hits(asks2, b, tick_size, false, k) > 0)
            &&& size_in(g2, k) == cell_sum(bids1, b, tick_size, true, k) + cell_sum(asks1, b, tick_size, false, k)
                + cell_sum(bids2, b, tick_size, true, k) + cell_sum(asks2, b, tick_size, false, k)
        }),
{
    let b = k.0;
    let g1 = deposit_levels(g, b, tick_size, bids1, true);
    let g2 = deposit_levels(g1, b, tick_size, asks1, false);
    let g3 = deposit_levels(g2, b, tick_size, bids2, true);
    lemma_deposit_levels_sum(g, b, tick_size, bids1, true, k, 0);
    lemma_deposit_levels_sum(g1, b, tick_size, asks1, false, k, bids1.len() as int);
    lemma_deposit_levels_sum(g2, b, tick_size, bids2, true, k, bids1.len() + asks1.len() as int);
    lemma_deposit_levels_sum(g3, b, tick_size, asks2, false, k, bids1.len() + asks1.len() + bids2.len() as int);
}

} // verus!
