//! Order-book heatmap: size accumulated per time bucket, price bin and side,
//! published as the significant tiles of the current bucket.

use crate::store::{
    enumerates, grid_cells, grid_clear, grid_entries, grid_get, grid_insert, grid_new, no_cells,
    grid_remove, CellKey, GridMap,
};
use crate::types::{BookSnapshot, HeatmapMetrics, Level, Tile};
use crate::utils::{bucket_of, calculate_bucket, quantize_price, quantize_spec, SCALE};
use vstd::prelude::*;

verus! {

/// Default width of a time bucket, in milliseconds.
pub const DEFAULT_BUCKET_MS: u64 = 1000;

/// Default price step of the grid: 0.01.
pub const DEFAULT_TICK_SIZE: i64 = 10_000;

/// A tile as plain values: price bin, size, and `true` for the bid side.
pub type TileItem = (i128, i128, bool);

/// `x` clamped into the range of `i128`.
pub open spec fn clamp_i128(x: int) -> int {
    if x > i128::MAX {
        i128::MAX as int
    } else if x < i128::MIN {
        i128::MIN as int
    } else {
        x
    }
}

/// `g` after adding `size` into cell `k`, saturating at the bounds of `i128`.
pub open spec fn deposit(g: Map<CellKey, i128>, k: CellKey, size: int) -> Map<CellKey, i128> {
    let cur: int = if g.contains_key(k) {
        g[k] as int
    } else {
        0
    };
    g.insert(k, clamp_i128(cur + size) as i128)
}

/// `g` after adding every level of one side of a book into `bucket`.
pub open spec fn deposit_levels(
    g: Map<CellKey, i128>,
    bucket: u64,
    tick_size: int,
    levels: Seq<Level>,
    is_bid: bool,
) -> Map<CellKey, i128>
    decreases levels.len(),
{
    if levels.len() == 0 {
        g
    } else {
        let last = levels.last();
        deposit(
            deposit_levels(g, bucket, tick_size, levels.drop_last(), is_bid),
            (bucket, quantize_spec(last.price as int, tick_size) as i128, is_bid),
            last.size as int,
        )
    }
}

/// `g` after one snapshot: bids first, then asks.
pub open spec fn deposit_snapshot(
    g: Map<CellKey, i128>,
    bucket: u64,
    tick_size: int,
    bids: Seq<Level>,
    asks: Seq<Level>,
) -> Map<CellKey, i128> {
    deposit_levels(deposit_levels(g, bucket, tick_size, bids, true), bucket, tick_size, asks, false)
}

/// A tile is kept where its size reaches one hundredth of the peak.
pub open spec fn significant(size: int, max_sz: int) -> bool {
    100 * size >= max_sz
}

/// `size` clears the significance floor, where there is one.
pub open spec fn passes(size: int, floor: Option<int>) -> bool {
    match floor {
        Some(max_sz) => significant(size, max_sz),
        None => true,
    }
}

/// No two items share a price bin and a side.
pub open spec fn distinct_cells(items: Seq<TileItem>) -> bool {
    forall|i: int, j: int|
        0 <= i < items.len() && 0 <= j < items.len() && i != j ==> items[i].0 != items[j].0
            || items[i].2 != items[j].2
}

/// `items` lists exactly the cells of `bucket` in `g` that pass `floor`, once each.
pub open spec fn lists_cells(
    g: Map<CellKey, i128>,
    bucket: u64,
    floor: Option<int>,
    items: Seq<TileItem>,
) -> bool {
    &&& forall|i: int|
        0 <= i < items.len() ==> {
            let k = (bucket, #[trigger] items[i].0, items[i].2);
            g.contains_key(k) && g[k] == items[i].1 && passes(items[i].1 as int, floor)
        }
    &&& distinct_cells(items)
    &&& forall|k: CellKey|
        #[trigger] g.contains_key(k) && k.0 == bucket && passes(g[k] as int, floor) ==> exists|
            i: int,
        | 0 <= i < items.len() && items[i].0 == k.1 && items[i].2 == k.2
}

/// Price bins never decrease along `items`.
pub open spec fn sorted_by_price(items: Seq<TileItem>) -> bool {
    forall|i: int, j: int| 0 <= i <= j < items.len() ==> items[i].0 <= items[j].0
}

/// `m` is the largest size in `bucket`, or zero where all are below zero.
pub open spec fn is_bucket_max(g: Map<CellKey, i128>, bucket: u64, m: int) -> bool {
    &&& m >= 0
    &&& forall|k: CellKey| #[trigger] g.contains_key(k) && k.0 == bucket ==> g[k] <= m
    &&& m == 0 || exists|k: CellKey| #[trigger] g.contains_key(k) && k.0 == bucket && g[k] == m
}

/// A tile read back as plain values.
pub open spec fn tile_item(t: Tile) -> TileItem {
    (t.price_bin, t.total_size, t.side@ == "bid"@)
}

/// Tiles read back as plain values, in order.
pub open spec fn tile_items(tiles: Seq<Tile>) -> Seq<TileItem> {
    tiles.map_values(|t: Tile| tile_item(t))
}

/// Every tile's side reads "bid" or "ask".
pub open spec fn labelled(tiles: Seq<Tile>) -> bool {
    forall|i: int| 0 <= i < tiles.len() ==> #[trigger] tiles[i].side@ == "bid"@ || tiles[i].side@ == "ask"@
}

/// `g` without the cells of `bucket`.
pub open spec fn without_bucket(g: Map<CellKey, i128>, bucket: u64) -> Map<CellKey, i128> {
    Map::new(|k: CellKey| g.contains_key(k) && k.0 != bucket, |k: CellKey| g[k])
}

/// Cells held over tiles kept, as a fixed-point ratio; one where none is kept.
pub open spec fn compression_of(cells: int, kept: int) -> int {
    if kept > 0 {
        cells * SCALE / kept
    } else {
        SCALE as int
    }
}

/// Heatmap of order-book size by time bucket, price bin and side.
/// Cells carry no symbol: snapshots of different symbols that share a
/// bucket, a price bin and a side add into the same tile.
pub struct HeatmapEngine {
    pub bucket_ms: u64,
    pub tick_size: i64,
    /// Accumulated size per cell; written by the methods below.
    pub grid: GridMap,
}

fn deposit_side(grid: &mut GridMap, bucket: u64, tick_size: i64, levels: &Vec<Level>, is_bid: bool)
    requires
        tick_size > 0,
    ensures
        grid_entries(*final(grid)) == deposit_levels(
            grid_entries(*old(grid)),
            bucket,
            tick_size as int,
            levels@,
            is_bid,
        ),
{
    let ghost g0 = grid_entries(*grid);
    let mut i: usize = 0;
    while i < levels.len()
        invariant
            0 <= i <= levels.len(),
            tick_size > 0,
            grid_entries(*grid) == deposit_levels(
                g0,
                bucket,
                tick_size as int,
                levels@.take(i as int),
                is_bid,
            ),
        decreases levels.len() - i,
    {
        let lv = levels[i];
        let price_bin = quantize_price(lv.price, tick_size);
        let key: CellKey = (bucket, price_bin, is_bid);
        let cur: i128 = match grid_get(grid, key) {
            Some(v) => v,
            None => 0,
        };
        let next: i128 = match cur.checked_add(lv.size as i128) {
            Some(v) => v,
            None => if lv.size > 0 {
                i128::MAX
            } else {
                i128::MIN
            },
        };
        grid_insert(grid, key, next);
        proof {
            assert(levels@.take(i + 1).drop_last() =~= levels@.take(i as int));
            assert(levels@.take(i + 1).last() == lv);
        }
        i += 1;
    }
    proof {
        assert(levels@.take(levels@.len() as int) =~= levels@);
    }
}

/// The cells of `bucket`, in the order the grid gave them.
fn bucket_items(cells: &Vec<(CellKey, i128)>, bucket: u64, Ghost(g): Ghost<Map<CellKey, i128>>) -> (r:
    Vec<TileItem>)
    requires
        enumerates(cells@, g),
    ensures
        lists_cells(g, bucket, None, r@),
        r@.len() <= cells@.len(),
{
    let mut r: Vec<TileItem> = Vec::new();
    let ghost mut src: Seq<int> = Seq::empty();
    let mut i: usize = 0;
    while i < cells.len()
        invariant
            0 <= i <= cells.len(),
            enumerates(cells@, g),
            r@.len() == src.len(),
            r@.len() <= i,
            forall|j: int|
                0 <= j < src.len() ==> 0 <= #[trigger] src[j] < i && cells@[src[j]].0 == (
                    bucket,
                    r@[j].0,
                    r@[j].2,
                ) && cells@[src[j]].1 == r@[j].1,
            forall|j1: int, j2: int| 0 <= j1 < j2 < src.len() ==> src[j1] < src[j2],
            forall|c: int|
                0 <= c < i && (#[trigger] cells@[c]).0.0 == bucket ==> exists|j: int|
                    0 <= j < src.len() && src[j] == c,
            forall|j: int|
                0 <= j < r@.len() ==> {
                    let k = (bucket, #[trigger] r@[j].0, r@[j].2);
                    g.contains_key(k) && g[k] == r@[j].1
                },
        decreases cells.len() - i,
    {
        let (k, sz) = cells[i];
        let ghost old_src = src;
        proof {
            assert(forall|c: int|
                0 <= c < i && (#[trigger] cells@[c]).0.0 == bucket ==> exists|j: int|
                    0 <= j < old_src.len() && old_src[j] == c);
        }
        if k.0 == bucket {
            proof {
                assert(g.contains_key(cells@[i as int].0));
            }
            r.push((k.1, sz, k.2));
            proof {
                src = src.push(i as int);
                assert(src[src.len() - 1] == i as int);
            }
        }
        proof {
            assert forall|c: int|
                0 <= c < i + 1 && (#[trigger] cells@[c]).0.0 == bucket implies exists|j: int|
                0 <= j < src.len() && src[j] == c by {
                if c == i {
                    assert(src[src.len() - 1] == c);
                } else {
                    let j = choose|j: int| 0 <= j < old_src.len() && old_src[j] == c;
                    assert(src[j] == c);
                }
            }
        }
        i += 1;
    }
    proof {
        assert forall|j1: int, j2: int|
            0 <= j1 < r@.len() && 0 <= j2 < r@.len() && j1 != j2 implies r@[j1].0 != r@[j2].0
            || r@[j1].2 != r@[j2].2 by {
            if j1 < j2 {
                assert(src[j1] < src[j2]);
            } else {
                assert(src[j2] < src[j1]);
            }
            assert(cells@[src[j1]].0 != cells@[src[j2]].0);
        }
        assert forall|k: CellKey|
            #[trigger] g.contains_key(k) && k.0 == bucket && passes(g[k] as int, None) implies exists|
                j: int,
            | 0 <= j < r@.len() && r@[j].0 == k.1 && r@[j].2 == k.2 by {
            let c = choose|c: int| 0 <= c < cells@.len() && cells@[c].0 == k;
            assert(cells@[c].0.0 == bucket);
            let j = choose|j: int| 0 <= j < src.len() && src[j] == c;
            assert(r@[j].0 == k.1 && r@[j].2 == k.2);
        }
    }
    r
}


/// The largest size among `items`, or zero where none is above zero.
fn bucket_max(items: &Vec<TileItem>, bucket: u64, Ghost(g): Ghost<Map<CellKey, i128>>) -> (r: i128)
    requires
        lists_cells(g, bucket, None, items@),
    ensures
        is_bucket_max(g, bucket, r as int),
{
    let mut m: i128 = 0;
    let mut i: usize = 0;
    while i < items.len()
        invariant
            0 <= i <= items.len(),
            m >= 0,
            forall|j: int| 0 <= j < i ==> #[trigger] items@[j].1 <= m,
            m == 0 || exists|j: int| 0 <= j < i && items@[j].1 == m,
        decreases items.len() - i,
    {
        if items[i].1 > m {
            m = items[i].1;
        }
        i += 1;
    }
    proof {
        assert forall|k: CellKey| #[trigger] g.contains_key(k) && k.0 == bucket implies g[k] <= m by {
            assert(passes(g[k] as int, None));
            let j = choose|j: int| 0 <= j < items@.len() && items@[j].0 == k.1 && items@[j].2 == k.2;
            assert(items@[j].1 <= m);
        }
        if m != 0 {
            let j = choose|j: int| 0 <= j < items@.len() && items@[j].1 == m;
            let k = (bucket, items@[j].0, items@[j].2);
            assert(g.contains_key(k) && k.0 == bucket && g[k] == m);
        }
    }
    m
}

/// The items whose size reaches one hundredth of `max_sz`, in the same order.
fn keep_significant(
    items: &Vec<TileItem>,
    max_sz: i128,
    bucket: u64,
    Ghost(g): Ghost<Map<CellKey, i128>>,
) -> (r: Vec<TileItem>)
    requires
        lists_cells(g, bucket, None, items@),
    ensures
        lists_cells(g, bucket, Some(max_sz as int), r@),
        r@.len() <= items@.len(),
{
    let mut r: Vec<TileItem> = Vec::new();
    let ghost mut src: Seq<int> = Seq::empty();
    let mut i: usize = 0;
    while i < items.len()
        invariant
            0 <= i <= items.len(),
            lists_cells(g, bucket, None, items@),
            r@.len() == src.len(),
            r@.len() <= i,
            forall|j: int|
                0 <= j < src.len() ==> 0 <= #[trigger] src[j] < i && items@[src[j]] == r@[j],
            forall|j1: int, j2: int| 0 <= j1 < j2 < src.len() ==> src[j1] < src[j2],
            forall|c: int|
                0 <= c < i && significant((#[trigger] items@[c]).1 as int, max_sz as int) ==> exists|
                    j: int,
                | 0 <= j < src.len() && src[j] == c,
            forall|j: int| 0 <= j < r@.len() ==> significant((#[trigger] r@[j]).1 as int, max_sz as int),
        decreases items.len() - i,
    {
        let it = items[i];
        let ghost old_src = src;
        proof {
            assert(forall|c: int|
                0 <= c < i && significant((#[trigger] items@[c]).1 as int, max_sz as int) ==> exists|
                    j: int,
                | 0 <= j < old_src.len() && old_src[j] == c);
        }
        if it.1 >= 0 && it.1 > (i128::MAX / 100) {
            r.push(it);
            proof {
                assert(significant(it.1 as int, max_sz as int));
                src = src.push(i as int);
                assert(src[src.len() - 1] == i as int);
            }
        } else if it.1 < 0 && it.1 < (i128::MIN / 100) {
            proof {
                assert(!significant(it.1 as int, max_sz as int));
            }
        } else if 100 * it.1 >= max_sz {
            r.push(it);
            proof {
                src = src.push(i as int);
                assert(src[src.len() - 1] == i as int);
            }
        }
        proof {
            assert forall|c: int|
                0 <= c < i + 1 && significant((#[trigger] items@[c]).1 as int, max_sz as int) implies exists|
                    j: int,
                | 0 <= j < src.len() && src[j] == c by {
                if c == i {
                    assert(src[src.len() - 1] == c);
                } else {
                    let j = choose|j: int| 0 <= j < old_src.len() && old_src[j] == c;
                    assert(src[j] == c);
                }
            }
        }
        i += 1;
    }
    proof {
        assert forall|j: int|
            0 <= j < r@.len() implies {
                let k = (bucket, #[trigger] r@[j].0, r@[j].2);
                g.contains_key(k) && g[k] == r@[j].1 && passes(r@[j].1 as int, Some(max_sz as int))
            } by {
            assert(items@[src[j]] == r@[j]);
            assert(items@[src[j]].0 == r@[j].0);
        }
        assert forall|j1: int, j2: int|
            0 <= j1 < r@.len() && 0 <= j2 < r@.len() && j1 != j2 implies r@[j1].0 != r@[j2].0
            || r@[j1].2 != r@[j2].2 by {
            if j1 < j2 {
                assert(src[j1] < src[j2]);
            } else {
                assert(src[j2] < src[j1]);
            }
        }
        assert forall|k: CellKey|
            #[trigger] g.contains_key(k) && k.0 == bucket && passes(g[k] as int, Some(max_sz as int)) implies exists|
                j: int,
            | 0 <= j < r@.len() && r@[j].0 == k.1 && r@[j].2 == k.2 by {
            assert(passes(g[k] as int, None));
            let c = choose|c: int| 0 <= c < items@.len() && items@[c].0 == k.1 && items@[c].2 == k.2;
            assert(items@[c].1 == g[k]);
            let j = choose|j: int| 0 <= j < src.len() && src[j] == c;
            assert(r@[j].0 == k.1 && r@[j].2 == k.2);
        }
    }
    r
}


/// `b` holds the same items as `a`, as many of them.
pub open spec fn same_items(a: Seq<TileItem>, b: Seq<TileItem>) -> bool {
    &&& a.len() == b.len()
    &&& drawn_from(b, a, a.len() as int)
    &&& covers(b, a, a.len() as int)
}

proof fn lemma_same_items_list(
    g: Map<CellKey, i128>,
    bucket: u64,
    floor: Option<int>,
    a: Seq<TileItem>,
    b: Seq<TileItem>,
)
    requires
        lists_cells(g, bucket, floor, a),
        same_items(a, b),
        distinct_cells(b),
    ensures
        lists_cells(g, bucket, floor, b),
{
    reveal(drawn_from);
    reveal(covers);
    assert forall|j: int| 0 <= j < b.len() implies {
        let k = (bucket, #[trigger] b[j].0, b[j].2);
        g.contains_key(k) && g[k] == b[j].1 && passes(b[j].1 as int, floor)
    } by {
        let i = choose|i: int| 0 <= i < a.len() && a[i] == b[j];
        assert(a[i].0 == b[j].0);
    }
    assert forall|k: CellKey|
        #[trigger] g.contains_key(k) && k.0 == bucket && passes(g[k] as int, floor) implies exists|
            j: int,
        | 0 <= j < b.len() && b[j].0 == k.1 && b[j].2 == k.2 by {
        let i = choose|i: int| 0 <= i < a.len() && a[i].0 == k.1 && a[i].2 == k.2;
        let j = choose|j: int| 0 <= j < b.len() && b[j] == a[i];
        assert(b[j].0 == k.1);
    }
}

/// Each of the first items of `r` is one of the first `i` of `items`.
#[verifier::opaque]
pub open spec fn drawn_from(r: Seq<TileItem>, items: Seq<TileItem>, i: int) -> bool {
    forall|a: int| 0 <= a < r.len() ==> exists|j: int| 0 <= j < i && items[j] == #[trigger] r[a]
}

/// Each of the first `i` of `items` stands in `r`.
#[verifier::opaque]
pub open spec fn covers(r: Seq<TileItem>, items: Seq<TileItem>, i: int) -> bool {
    forall|j: int| 0 <= j < i ==> exists|a: int| 0 <= a < r.len() && r[a] == #[trigger] items[j]
}

proof fn lemma_after_position(old_r: Seq<TileItem>, pos: int, x: TileItem)
    requires
        0 <= pos <= old_r.len(),
        sorted_by_price(old_r),
        pos < old_r.len() ==> old_r[pos].0 > x.0,
    ensures
        forall|a: int| pos <= a < old_r.len() ==> (#[trigger] old_r[a]).0 > x.0,
{
    assert forall|a: int| pos <= a < old_r.len() implies (#[trigger] old_r[a]).0 > x.0 by {
        assert(old_r[pos].0 <= old_r[a].0);
    }
}

proof fn lemma_fresh_item(items: Seq<TileItem>, i: int, old_r: Seq<TileItem>)
    requires
        0 <= i < items.len(),
        distinct_cells(items),
        drawn_from(old_r, items, i),
    ensures
        forall|a: int| 0 <= a < old_r.len() ==> (#[trigger] old_r[a]).0 != items[i].0 || old_r[a].2 != items[i].2,
{
    reveal(drawn_from);
    assert forall|a: int| 0 <= a < old_r.len() implies (#[trigger] old_r[a]).0 != items[i].0 || old_r[a].2 != items[i].2 by {
        let j = choose|j: int| 0 <= j < i && items[j] == old_r[a];
        assert(items[j].0 != items[i].0 || items[j].2 != items[i].2);
    }
}

proof fn lemma_insert_sorted(old_r: Seq<TileItem>, pos: int, x: TileItem, n: Seq<TileItem>)
    requires
        0 <= pos <= old_r.len(),
        n == old_r.insert(pos, x),
        sorted_by_price(old_r),
        forall|a: int| 0 <= a < pos ==> (#[trigger] old_r[a]).0 <= x.0,
        forall|a: int| pos <= a < old_r.len() ==> (#[trigger] old_r[a]).0 > x.0,
    ensures
        sorted_by_price(n),
{
    assert forall|a: int, b: int| 0 <= a <= b < n.len() implies n[a].0 <= n[b].0 by {
        if a < pos && b < pos {
        } else if a < pos && b == pos {
        } else if a < pos {
            assert(old_r[a].0 <= old_r[b - 1].0);
        } else if a == pos && b == pos {
        } else if a == pos {
            assert(old_r[b - 1].0 > x.0);
        } else {
            assert(old_r[a - 1].0 <= old_r[b - 1].0);
        }
    }
}

proof fn lemma_insert_distinct(old_r: Seq<TileItem>, pos: int, x: TileItem, n: Seq<TileItem>)
    requires
        0 <= pos <= old_r.len(),
        n == old_r.insert(pos, x),
        distinct_cells(old_r),
        forall|a: int| 0 <= a < old_r.len() ==> (#[trigger] old_r[a]).0 != x.0 || old_r[a].2 != x.2,
    ensures
        distinct_cells(n),
{
    assert forall|a: int, b: int|
        0 <= a < n.len() && 0 <= b < n.len() && a != b implies n[a].0 != n[b].0 || n[a].2 != n[b].2 by {
        if a == pos {
            let bb = if b < pos { b } else { b - 1 };
            assert(old_r[bb] == n[b]);
        } else if b == pos {
            let aa = if a < pos { a } else { a - 1 };
            assert(old_r[aa] == n[a]);
        } else {
            let aa = if a < pos { a } else { a - 1 };
            let bb = if b < pos { b } else { b - 1 };
            assert(old_r[aa] == n[a] && old_r[bb] == n[b]);
        }
    }
}

proof fn lemma_insert_members(items: Seq<TileItem>, i: int, old_r: Seq<TileItem>, pos: int, n: Seq<TileItem>)
    requires
        0 <= i < items.len(),
        0 <= pos <= old_r.len(),
        n == old_r.insert(pos, items[i]),
        drawn_from(old_r, items, i),
        covers(old_r, items, i),
    ensures
        drawn_from(n, items, i + 1),
        covers(n, items, i + 1),
{
    reveal(drawn_from);
    reveal(covers);
    assert forall|a: int| 0 <= a < n.len() implies exists|j: int|
        0 <= j < i + 1 && items[j] == #[trigger] n[a] by {
        if a == pos {
            assert(items[i] == n[a]);
        } else {
            let aa = if a < pos { a } else { a - 1 };
            assert(old_r[aa] == n[a]);
            let j = choose|j: int| 0 <= j < i && items[j] == old_r[aa];
            assert(items[j] == n[a]);
        }
    }
    assert forall|j: int| 0 <= j < i + 1 implies exists|a: int|
        0 <= a < n.len() && n[a] == #[trigger] items[j] by {
        if j == i {
            assert(n[pos] == items[j]);
        } else {
            let a = choose|a: int| 0 <= a < old_r.len() && old_r[a] == items[j];
            if a < pos {
                assert(n[a] == items[j]);
            } else {
                assert(n[a + 1] == items[j]);
            }
        }
    }
}

/// The items ordered by price bin, by insertion; equal bins keep their order.
fn sort_by_price(items: &Vec<TileItem>) -> (r: Vec<TileItem>)
    requires
        distinct_cells(items@),
    ensures
        sorted_by_price(r@),
        distinct_cells(r@),
        same_items(items@, r@),
{
    let mut r: Vec<TileItem> = Vec::new();
    let mut i: usize = 0;
    proof {
        reveal(drawn_from);
        reveal(covers);
    }
    while i < items.len()
        invariant
            0 <= i <= items.len(),
            distinct_cells(items@),
            sorted_by_price(r@),
            distinct_cells(r@),
            r@.len() == i,
            drawn_from(r@, items@, i as int),
            covers(r@, items@, i as int),
        decreases items.len() - i,
    {
        let x = items[i];
        let mut pos: usize = 0;
        while pos < r.len() && r[pos].0 <= x.0
            invariant
                0 <= pos <= r@.len(),
                forall|a: int| 0 <= a < pos ==> (#[trigger] r@[a]).0 <= x.0,
            decreases r@.len() - pos,
        {
            pos += 1;
        }
        let ghost old_r = r@;
        proof {
            lemma_after_position(old_r, pos as int, x);
            lemma_fresh_item(items@, i as int, old_r);
        }
        r.insert(pos, x);
        proof {
            lemma_insert_sorted(old_r, pos as int, x, r@);
            lemma_insert_distinct(old_r, pos as int, x, r@);
            lemma_insert_members(items@, i as int, old_r, pos as int, r@);
        }
        i += 1;
    }
    r
}


/// The items as tiles, with the side written out.
fn to_tiles(items: &Vec<TileItem>) -> (r: Vec<Tile>)
    ensures
        tile_items(r@) == items@,
        labelled(r@),
{
    let mut r: Vec<Tile> = Vec::new();
    let mut i: usize = 0;
    proof {
        reveal_strlit("bid");
        reveal_strlit("ask");
        assert("bid"@[0] != "ask"@[0]);
    }
    while i < items.len()
        invariant
            0 <= i <= items.len(),
            r@.len() == i,
            forall|j: int| 0 <= j < i ==> tile_item(#[trigger] r@[j]) == items@[j],
            labelled(r@),
            "bid"@ != "ask"@,
        decreases items.len() - i,
    {
        let (price_bin, total_size, is_bid) = items[i];
        let side = if is_bid {
            String::from_str("bid")
        } else {
            String::from_str("ask")
        };
        r.push(Tile { price_bin, total_size, side });
        i += 1;
    }
    proof {
        assert(tile_items(r@) =~= items@);
    }
    r
}

impl HeatmapEngine {
    /// What the grid holds.
    pub open spec fn cells(&self) -> Map<CellKey, i128> {
        grid_entries(self.grid)
    }

    /// An engine with the default bucket width and tick size and no cells.
    pub fn new() -> (r: HeatmapEngine)
        ensures
            r.bucket_ms == DEFAULT_BUCKET_MS,
            r.tick_size == DEFAULT_TICK_SIZE,
            r.cells() == no_cells(),
    {
        HeatmapEngine { bucket_ms: DEFAULT_BUCKET_MS, tick_size: DEFAULT_TICK_SIZE, grid: grid_new() }
    }

    /// Sets the width of a time bucket, in milliseconds.
    pub fn set_bucket_ms(&mut self, bucket_ms: u64)
        requires
            bucket_ms > 0,
        ensures
            final(self).bucket_ms == bucket_ms,
            final(self).tick_size == old(self).tick_size,
            final(self).cells() == old(self).cells(),
    {
        self.bucket_ms = bucket_ms;
    }

    /// Sets the price step of the grid.
    pub fn set_tick_size(&mut self, tick_size: i64)
        requires
            tick_size > 0,
        ensures
            final(self).tick_size == tick_size,
            final(self).bucket_ms == old(self).bucket_ms,
            final(self).cells() == old(self).cells(),
    {
        self.tick_size = tick_size;
    }

    /// Adds every level of the snapshot into its cell of the current bucket,
    /// then returns that bucket's significant tiles in ascending price order.
    /// A snapshot with no level on either side is rejected.
    pub fn on_snapshot(&mut self, snapshot: &BookSnapshot) -> (r: Option<HeatmapMetrics>)
        requires
            old(self).bucket_ms > 0,
            old(self).tick_size > 0,
        ensures
            final(self).bucket_ms == old(self).bucket_ms,
            final(self).tick_size == old(self).tick_size,
            (r is None) == (snapshot.bids@.len() == 0 && snapshot.asks@.len() == 0),
            r is None ==> final(self).cells() == old(self).cells(),
            r matches Some(m) ==> {
                let b = bucket_of(snapshot.ts as int, old(self).bucket_ms as int) as u64;
                let g = deposit_snapshot(
                    old(self).cells(),
                    b,
                    old(self).tick_size as int,
                    snapshot.bids@,
                    snapshot.asks@,
                );
                &&& final(self).cells() == g
                &&& m.bucket_ts == b
                &&& m.bucket_ms == old(self).bucket_ms
                &&& is_bucket_max(g, b, m.max_sz as int)
                &&& lists_cells(g, b, Some(m.max_sz as int), tile_items(m.tiles@))
                &&& sorted_by_price(tile_items(m.tiles@))
                &&& labelled(m.tiles@)
                &&& m.compression_ratio == compression_of(g.len() as int, m.tiles@.len() as int)
                &&& m.tiles@.len() > 0 ==> m.compression_ratio >= SCALE
            },
    {
        if snapshot.bids.len() == 0 && snapshot.asks.len() == 0 {
            return None;
        }
        let bucket_ts = calculate_bucket(snapshot.ts, self.bucket_ms);
        deposit_side(&mut self.grid, bucket_ts, self.tick_size, &snapshot.bids, true);
        deposit_side(&mut self.grid, bucket_ts, self.tick_size, &snapshot.asks, false);
        let ghost g = self.cells();
        let cells = grid_cells(&self.grid);
        let items = bucket_items(&cells, bucket_ts, Ghost(g));
        let max_sz = bucket_max(&items, bucket_ts, Ghost(g));
        let kept = keep_significant(&items, max_sz, bucket_ts, Ghost(g));
        let sorted = sort_by_price(&kept);
        proof {
            lemma_same_items_list(g, bucket_ts, Some(max_sz as int), kept@, sorted@);
        }
        let count: i128 = cells.len() as i128;
        let n_kept: i128 = sorted.len() as i128;
        let compression_ratio: i128 = if n_kept > 0 {
            proof {
                let c = count as int;
                let k = n_kept as int;
                let sc = SCALE as int;
                assert(c * sc >= k * sc) by (nonlinear_arith)
                    requires c >= k, sc > 0;
                assert((c * sc) / k >= sc) by (nonlinear_arith)
                    requires c * sc >= k * sc, k > 0;
                assert(0 <= c * sc <= 0x1_0000_0000_0000_0000 * 1_000_000) by (nonlinear_arith)
                    requires 0 <= c <= 0x1_0000_0000_0000_0000, sc == 1_000_000;
            }
            count * (SCALE as i128) / n_kept
        } else {
            SCALE as i128
        };
        let tiles = to_tiles(&sorted);
        Some(HeatmapMetrics { bucket_ts, bucket_ms: self.bucket_ms, tiles, max_sz, compression_ratio })
    }

    /// The cells of one bucket as tiles in ascending price order, unfiltered.
    pub fn get_tile_delta(&self, bucket_ts: u64) -> (r: Vec<Tile>)
        ensures
            lists_cells(self.cells(), bucket_ts, None, tile_items(r@)),
            sorted_by_price(tile_items(r@)),
            labelled(r@),
    {
        let cells = grid_cells(&self.grid);
        let items = bucket_items(&cells, bucket_ts, Ghost(self.cells()));
        let sorted = sort_by_price(&items);
        proof {
            lemma_same_items_list(self.cells(), bucket_ts, None, items@, sorted@);
        }
        to_tiles(&sorted)
    }

    /// Clears every bucket.
    pub fn reset(&mut self)
        ensures
            final(self).cells() == no_cells(),
            final(self).bucket_ms == old(self).bucket_ms,
            final(self).tick_size == old(self).tick_size,
    {
        grid_clear(&mut self.grid);
    }
    /// Clears the cells of one bucket; the others stay as they are.
    pub fn reset_bucket(&mut self, bucket_ts: u64)
        ensures
            final(self).cells() == without_bucket(old(self).cells(), bucket_ts),
            final(self).bucket_ms == old(self).bucket_ms,
            final(self).tick_size == old(self).tick_size,
    {
        let ghost g = self.cells();
        let cells = grid_cells(&self.grid);
        let ghost mut removed: Set<CellKey> = Set::empty();
        let mut i: usize = 0;
        while i < cells.len()
            invariant
                0 <= i <= cells.len(),
                enumerates(cells@, g),
                self.cells() == g.remove_keys(removed),
                self.bucket_ms == old(self).bucket_ms,
                self.tick_size == old(self).tick_size,
                forall|k: CellKey| #[trigger] removed.contains(k) ==> k.0 == bucket_ts,
                forall|j: int|
                    0 <= j < i && (#[trigger] cells@[j]).0.0 == bucket_ts ==> removed.contains(
                        cells@[j].0,
                    ),
            decreases cells.len() - i,
        {
            let key = cells[i].0;
            if key.0 == bucket_ts {
                grid_remove(&mut self.grid, key);
                proof {
                    assert(g.remove_keys(removed).remove(key) =~= g.remove_keys(removed.insert(key)));
                    removed = removed.insert(key);
                }
            }
            i += 1;
        }
        proof {
            assert forall|k: CellKey| #[trigger] g.contains_key(k) && k.0 == bucket_ts implies removed.contains(k) by {
                let j = choose|j: int| 0 <= j < cells@.len() && cells@[j].0 == k;
                assert(cells@[j].0.0 == bucket_ts);
            }
            assert(self.cells() =~= without_bucket(g, bucket_ts));
        }
    }
}

} // verus!
