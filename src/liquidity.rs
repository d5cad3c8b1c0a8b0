//! Order-book liquidity: spread, mid, depth and imbalances of one snapshot.

use crate::types::{BookSnapshot, Level, LiquidityMetrics};
use crate::utils::{
    calculate_mid, calculate_spread, fits_i128, safe_ratio, safe_ratio_spec, trunc_div,
};
use vstd::prelude::*;

verus! {

/// Default number of levels per side that count toward depth.
pub const DEFAULT_DEPTH_LEVELS: usize = 10;

/// Sum of the sizes of `levels`.
pub open spec fn size_sum(levels: Seq<Level>) -> int
    decreases levels.len(),
{
    if levels.len() == 0 {
        0
    } else {
        size_sum(levels.drop_last()) + levels.last().size
    }
}

/// Sum of the sizes of the first `depth` levels (all of them where fewer).
pub open spec fn depth_of(levels: Seq<Level>, depth: int) -> int {
    if depth < levels.len() {
        size_sum(levels.take(depth))
    } else {
        size_sum(levels)
    }
}

/// `(x - y) / (x + y)` as a fixed-point ratio; zero where the total is not
/// positive or a term leaves `i128`.
pub open spec fn imbalance_of(x: int, y: int) -> int {
    if fits_i128(x - y) && fits_i128(x + y) {
        safe_ratio_spec(x - y, x + y)
    } else {
        0
    }
}

/// The decimal digit `d`, for `0 <= d < 10`.
pub open spec fn digit_char(d: int) -> char {
    seq!['0', '1', '2', '3', '4', '5', '6', '7', '8', '9'][d]
}

/// Decimal digits of `n`, without leading zeros.
pub open spec fn decimal(n: nat) -> Seq<char>
    decreases n,
{
    if n < 10 {
        seq![digit_char(n as int)]
    } else {
        decimal(n / 10) + seq![digit_char((n % 10) as int)]
    }
}

/// "{bids}/{asks}" in decimal.
pub open spec fn count_label(bids: nat, asks: nat) -> Seq<char> {
    decimal(bids) + seq!['/'] + decimal(asks)
}

/// The decimal digit `d` as text.
fn digit_text(d: usize) -> (r: &'static str)
    requires
        d < 10,
    ensures
        r@ == seq![digit_char(d as int)],
{
    proof {
        reveal_strlit("0");
        reveal_strlit("1");
        reveal_strlit("2");
        reveal_strlit("3");
        reveal_strlit("4");
        reveal_strlit("5");
        reveal_strlit("6");
        reveal_strlit("7");
        reveal_strlit("8");
        reveal_strlit("9");
    }
    let r = if d == 0 {
        "0"
    } else if d == 1 {
        "1"
    } else if d == 2 {
        "2"
    } else if d == 3 {
        "3"
    } else if d == 4 {
        "4"
    } else if d == 5 {
        "5"
    } else if d == 6 {
        "6"
    } else if d == 7 {
        "7"
    } else if d == 8 {
        "8"
    } else {
        "9"
    };
    proof {
        assert(r@ =~= seq![digit_char(d as int)]);
    }
    r
}

/// `n` written in decimal.
fn decimal_text(n: usize) -> (r: String)
    ensures
        r@ == decimal(n as nat),
    decreases n,
{
    if n < 10 {
        String::from_str(digit_text(n))
    } else {
        let head = decimal_text(n / 10);
        head.concat(digit_text(n % 10))
    }
}

/// "{bids}/{asks}" in decimal.
fn level_counts(bids: usize, asks: usize) -> (r: String)
    ensures
        r@ == count_label(bids as nat, asks as nat),
{
    proof {
        reveal_strlit("/");
    }
    let tail = decimal_text(asks);
    decimal_text(bids).concat("/").concat(tail.as_str())
}

/// Sum of the sizes of the first `depth` levels.
fn depth_sum(levels: &Vec<Level>, depth: usize) -> (r: i128)
    ensures
        r == depth_of(levels@, depth as int),
{
    let n: usize = if depth < levels.len() {
        depth
    } else {
        levels.len()
    };
    let mut sum: i128 = 0;
    let mut i: usize = 0;
    while i < n
        invariant
            0 <= i <= n <= levels.len(),
            sum == size_sum(levels@.take(i as int)),
            -(i as int) * 0x8000_0000_0000_0000 <= sum <= (i as int) * 0x8000_0000_0000_0000,
        decreases n - i,
    {
        proof {
            assert(levels@.take(i + 1).drop_last() =~= levels@.take(i as int));
        }
        sum = sum + levels[i].size as i128;
        i += 1;
    }
    proof {
        if depth >= levels.len() {
            assert(levels@.take(n as int) =~= levels@);
        }
    }
    sum
}

/// Imbalance of two depths as a fixed-point ratio.
fn imbalance(x: i128, y: i128) -> (r: i128)
    ensures
        r == imbalance_of(x as int, y as int),
{
    match (x.checked_sub(y), x.checked_add(y)) {
        (Some(diff), Some(total)) => safe_ratio(diff, total),
        _ => 0,
    }
}

/// Liquidity figures of order-book snapshots; keeps no state between calls.
pub struct LiquidityEngine {
    /// Levels per side that count toward depth.
    pub depth_levels: usize,
}

impl LiquidityEngine {
    /// An engine that counts the default number of levels.
    pub fn new() -> (r: LiquidityEngine)
        ensures
            r.depth_levels == DEFAULT_DEPTH_LEVELS,
    {
        LiquidityEngine { depth_levels: DEFAULT_DEPTH_LEVELS }
    }

    /// Figures of one snapshot; a snapshot with an empty side is rejected.
    pub fn on_snapshot(&self, snapshot: &BookSnapshot) -> (r: Option<LiquidityMetrics>)
        ensures
            (r is None) == (snapshot.bids@.len() == 0 || snapshot.asks@.len() == 0),
            r matches Some(m) ==> {
                let bids = snapshot.bids@;
                let asks = snapshot.asks@;
                let bids_depth = depth_of(bids, self.depth_levels as int);
                let asks_depth = depth_of(asks, self.depth_levels as int);
                &&& m.best_bid == bids[0].price
                &&& m.best_ask == asks[0].price
                &&& m.bid1_size == bids[0].size
                &&& m.ask1_size == asks[0].size
                &&& m.mid == trunc_div(bids[0].price + asks[0].price, 2)
                &&& m.spread == asks[0].price - bids[0].price
                &&& m.bids_depth == bids_depth
                &&& m.asks_depth == asks_depth
                &&& m.depth_imbalance == imbalance_of(bids_depth, asks_depth)
                &&& m.top_imbalance == imbalance_of(bids[0].size as int, asks[0].size as int)
                &&& m.levels@ == count_label(bids.len(), asks.len())
            },
    {
        if snapshot.bids.len() == 0 || snapshot.asks.len() == 0 {
            return None;
        }
        let best_bid = snapshot.bids[0].price;
        let best_ask = snapshot.asks[0].price;
        let bid1_size = snapshot.bids[0].size;
        let ask1_size = snapshot.asks[0].size;
        let mid = calculate_mid(best_bid, best_ask);
        let spread = calculate_spread(best_bid, best_ask);
        let bids_depth = depth_sum(&snapshot.bids, self.depth_levels);
        let asks_depth = depth_sum(&snapshot.asks, self.depth_levels);
        let depth_imbalance = imbalance(bids_depth, asks_depth);
        let top_imbalance = imbalance(bid1_size as i128, ask1_size as i128);
        let levels = level_counts(snapshot.bids.len(), snapshot.asks.len());
        Some(
            LiquidityMetrics {
                mid,
                spread,
                bids_depth,
                asks_depth,
                depth_imbalance,
                top_imbalance,
                best_bid,
                best_ask,
                bid1_size,
                ask1_size,
                levels,
            },
        )
    }
}

} // verus!
