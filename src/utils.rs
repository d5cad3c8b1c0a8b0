//! Fixed-point numeric helpers shared by the engines.
//!
//! Every decimal quantity of the library (price, size, volume, ratio) is an
//! integer count of `1 / SCALE` units: `150.25` is `150_250_000`.

use vstd::prelude::*;

verus! {

/// Number of fixed-point units in one whole unit.
pub const SCALE: i64 = 1_000_000;

/// `num / den` rounded toward zero, as Rust's integer division rounds.
pub open spec fn trunc_div(num: int, den: int) -> int {
    if num >= 0 {
        num / den
    } else {
        -((-num) / den)
    }
}

/// `num / den` rounded to the nearest integer, halves away from zero.
pub open spec fn round_div(num: int, den: int) -> int {
    if num >= 0 {
        (2 * num + den) / (2 * den)
    } else {
        -((2 * (-num) + den) / (2 * den))
    }
}

/// `x` is a value of `i128`.
pub open spec fn fits_i128(x: int) -> bool {
    i128::MIN <= x <= i128::MAX
}

/// Division that never fails: zero where the denominator is not positive.
pub open spec fn safe_div_spec(num: int, den: int) -> int {
    if den > 0 {
        trunc_div(num, den)
    } else {
        0
    }
}

/// The fixed-point value of the ratio `num / den`; zero where the
/// denominator is not positive or the scaled numerator leaves `i128`.
pub open spec fn safe_ratio_spec(num: int, den: int) -> int {
    if den > 0 && fits_i128(num * SCALE) {
        trunc_div(num * SCALE, den)
    } else {
        0
    }
}

/// Start of the bucket of width `bucket_ms` that holds `ts`.
pub open spec fn bucket_of(ts: int, bucket_ms: int) -> int {
    (ts / bucket_ms) * bucket_ms
}

/// `price` snapped to the nearest multiple of `tick_size`, halves away from zero.
pub open spec fn quantize_spec(price: int, tick_size: int) -> int {
    round_div(price, tick_size) * tick_size
}

proof fn lemma_trunc_div_bounds(num: int, den: int)
    requires
        den > 0,
    ensures
        num >= 0 ==> 0 <= trunc_div(num, den) <= num,
        num < 0 ==> num <= trunc_div(num, den) <= 0,
{
    if num >= 0 {
        assert(num / den <= num) by (nonlinear_arith)
            requires num >= 0, den > 0;
        assert(num / den >= 0) by (nonlinear_arith)
            requires num >= 0, den > 0;
    } else {
        let m = -num;
        assert(m / den <= m) by (nonlinear_arith)
            requires m >= 0, den > 0;
        assert(m / den >= 0) by (nonlinear_arith)
            requires m >= 0, den > 0;
    }
}

/// Divides `num` by `den`, yielding zero rather than failing when `den` is
/// not positive.
pub fn safe_div(num: i128, den: i128) -> (r: i128)
    ensures
        r == safe_div_spec(num as int, den as int),
{
    if den > 0 {
        proof {
            lemma_trunc_div_bounds(num as int, den as int);
        }
        if num >= 0 {
            num / den
        } else if num == i128::MIN {
            // The magnitude of the smallest value does not fit: step it once.
            let p: i128 = -(num + den);
            proof {
                let m = -(num as int);
                let d = den as int;
                assert((m - d) / d + 1 == m / d) by (nonlinear_arith)
                    requires m >= d, d > 0;
                assert(0 <= (m - d) / d <= m - d) by (nonlinear_arith)
                    requires m >= d, d > 0;
            }
            assert(p >= 0 && p / den <= p);
            let q: i128 = p / den;
            -q - 1
        } else {
            -((-num) / den)
        }
    } else {
        0
    }
}

/// The ratio `num / den` as a fixed-point value; zero when `den` is not
/// positive or the scaled numerator does not fit.
pub fn safe_ratio(num: i128, den: i128) -> (r: i128)
    ensures
        r == safe_ratio_spec(num as int, den as int),
{
    match num.checked_mul(SCALE as i128) {
        Some(scaled) => safe_div(scaled, den),
        None => 0,
    }
}

/// Mid price of a bid and an ask, rounded toward zero to a unit.
pub fn calculate_mid(bid: i64, ask: i64) -> (r: i64)
    ensures
        r == trunc_div(bid + ask, 2),
{
    let s: i128 = bid as i128 + ask as i128;
    proof {
        lemma_trunc_div_bounds(s as int, 2);
        assert(s >= 0 ==> s / 2 <= i64::MAX);
        assert(s < 0 ==> (-s) / 2 <= -(i64::MIN as int));
    }
    safe_div(s, 2) as i64
}

/// Spread between an ask and a bid.
pub fn calculate_spread(bid: i64, ask: i64) -> (r: i128)
    ensures
        r == ask - bid,
{
    ask as i128 - bid as i128
}

/// Snaps a price to the nearest multiple of `tick_size`, halves away from zero.
pub fn quantize_price(price: i64, tick_size: i64) -> (r: i128)
    requires
        tick_size > 0,
    ensures
        r == quantize_spec(price as int, tick_size as int),
        -0x1_0000_0000_0000_0000 <= r <= 0x1_0000_0000_0000_0000,
{
    let t: i128 = tick_size as i128;
    if price >= 0 {
        let n: i128 = price as i128;
        let q: i128 = (2 * n + t) / (2 * t);
        proof {
            assert(q * t <= n + t) by (nonlinear_arith)
                requires q == (2 * n + t) / (2 * t), n >= 0, t > 0;
            assert(q >= 0) by (nonlinear_arith)
                requires q == (2 * n + t) / (2 * t), n >= 0, t > 0;
            assert(q * t >= 0) by (nonlinear_arith)
                requires q >= 0, t > 0;
        }
        q * t
    } else {
        let n: i128 = -(price as i128);
        let q: i128 = (2 * n + t) / (2 * t);
        proof {
            assert(q * t <= n + t) by (nonlinear_arith)
                requires q == (2 * n + t) / (2 * t), n >= 0, t > 0;
            assert(q >= 0) by (nonlinear_arith)
                requires q == (2 * n + t) / (2 * t), n >= 0, t > 0;
            assert(q * t >= 0) by (nonlinear_arith)
                requires q >= 0, t > 0;
            assert((-q) * t == -(q * t)) by (nonlinear_arith);
        }
        -(q * t)
    }
}

/// Start of the time bucket of width `bucket_ms` that holds `ts`.
pub fn calculate_bucket(ts: u64, bucket_ms: u64) -> (r: u64)
    requires
        bucket_ms > 0,
    ensures
        r == bucket_of(ts as int, bucket_ms as int),
        r <= ts,
        ts < r + bucket_ms,
        r % bucket_ms == 0,
{
    let q: u64 = ts / bucket_ms;
    proof {
        let t = ts as int;
        let b = bucket_ms as int;
        assert(t == (t / b) * b + t % b && 0 <= t % b < b) by (nonlinear_arith)
            requires b > 0, t >= 0;
        assert(((t / b) * b) % b == 0) by (nonlinear_arith)
            requires b > 0, t >= 0;
    }
    q * bucket_ms
}


/// Sum of a sequence of fixed-point values.
pub open spec fn seq_sum(s: Seq<i64>) -> int
    decreases s.len(),
{
    if s.len() == 0 {
        0
    } else {
        seq_sum(s.drop_last()) + s.last()
    }
}

proof fn lemma_sum_bound(s: Seq<i64>)
    ensures
        -(s.len() as int) * 0x8000_0000_0000_0000 <= seq_sum(s) <= (s.len() as int) * 0x8000_0000_0000_0000,
    decreases s.len(),
{
    if s.len() > 0 {
        lemma_sum_bound(s.drop_last());
    }
}

/// A window's sum is the difference of two prefix sums.
proof fn lemma_window_sum(s: Seq<i64>, a: int, b: int)
    requires
        0 <= a <= b <= s.len(),
    ensures
        seq_sum(s.subrange(a, b)) == seq_sum(s.take(b)) - seq_sum(s.take(a)),
    decreases b - a,
{
    if a == b {
        assert(s.subrange(a, b).len() == 0);
    } else {
        lemma_window_sum(s, a, b - 1);
        assert(s.subrange(a, b).drop_last() =~= s.subrange(a, b - 1));
        assert(s.take(b).drop_last() =~= s.take(b - 1));
    }
}

/// Sum of all volumes.
pub fn aggregate_volume_simd(volumes: &[i64]) -> (r: i128)
    ensures
        r == seq_sum(volumes@),
{
    let mut sum: i128 = 0;
    let mut i: usize = 0;
    while i < volumes.len()
        invariant
            0 <= i <= volumes@.len(),
            sum == seq_sum(volumes@.take(i as int)),
        decreases volumes@.len() - i,
    {
        proof {
            assert(volumes@.take(i + 1).drop_last() =~= volumes@.take(i as int));
            lemma_sum_bound(volumes@.take(i + 1));
        }
        sum = sum + volumes[i] as i128;
        i += 1;
    }
    proof {
        assert(volumes@.take(volumes@.len() as int) =~= volumes@);
    }
    sum
}

/// Sums of every window of `window_size` consecutive values, in order; the
/// sum of all values, alone, where the window is no shorter than the input.
pub fn sliding_window_sum(values: &[i64], window_size: usize) -> (r: Vec<i128>)
    ensures
        window_size >= values@.len() ==> r@.len() == 1 && r@[0] == seq_sum(values@),
        window_size < values@.len() ==> {
            &&& r@.len() == values@.len() - window_size + 1
            &&& forall|j: int|
                0 <= j < r@.len() ==> #[trigger] r@[j] == seq_sum(
                    values@.subrange(j, j + window_size),
                )
        },
{
    let n = values.len();
    if window_size >= n {
        let total = aggregate_volume_simd(values);
        let mut r: Vec<i128> = Vec::new();
        r.push(total);
        return r;
    }
    let mut current: i128 = 0;
    let mut i: usize = 0;
    while i < window_size
        invariant
            0 <= i <= window_size < n,
            n == values@.len(),
            current == seq_sum(values@.take(i as int)),
        decreases window_size - i,
    {
        proof {
            assert(values@.take(i + 1).drop_last() =~= values@.take(i as int));
            lemma_sum_bound(values@.take(i + 1));
        }
        current = current + values[i] as i128;
        i += 1;
    }
    let mut r: Vec<i128> = Vec::new();
    proof {
        assert(values@.subrange(0, window_size as int) =~= values@.take(window_size as int));
    }
    r.push(current);
    let mut j: usize = 0;
    while j < n - window_size
        invariant
            window_size < n,
            n == values@.len(),
            0 <= j <= n - window_size,
            r@.len() == j + 1,
            current == seq_sum(values@.subrange(j as int, j + window_size)),
            forall|k: int|
                0 <= k < r@.len() ==> #[trigger] r@[k] == seq_sum(values@.subrange(k, k + window_size)),
        decreases n - window_size - j,
    {
        proof {
            lemma_window_sum(values@, j as int, j + window_size);
            lemma_window_sum(values@, j + 1, j + 1 + window_size);
            assert(values@.take(j + 1 + window_size).drop_last() =~= values@.take(j + window_size));
            assert(values@.take(j + 1).drop_last() =~= values@.take(j as int));
            lemma_sum_bound(values@.subrange(j + 1, j + 1 + window_size));
        }
        current = current + (values[j + window_size] as i128 - values[j] as i128);
        r.push(current);
        j += 1;
    }
    r
}

/// Whole units of a quantized price, as a cast to `u64` truncates them:
/// zero for a price bin that is not positive.
pub open spec fn whole_bin(price: int, tick_size: int) -> int {
    let q = quantize_spec(price, tick_size);
    if q > 0 {
        q / (SCALE as int)
    } else {
        0
    }
}

/// Each price quantized to the tick grid, in whole units.
pub fn price_binning_simd(prices: &[i64], tick_size: i64) -> (r: Vec<u64>)
    requires
        tick_size > 0,
    ensures
        r@.len() == prices@.len(),
        forall|i: int| 0 <= i < r@.len() ==> r@[i] == whole_bin(prices@[i] as int, tick_size as int),
{
    let mut r: Vec<u64> = Vec::new();
    let mut i: usize = 0;
    while i < prices.len()
        invariant
            0 <= i <= prices@.len(),
            tick_size > 0,
            r@.len() == i,
            forall|k: int| 0 <= k < i ==> r@[k] == whole_bin(prices@[k] as int, tick_size as int),
        decreases prices@.len() - i,
    {
        let q = quantize_price(prices[i], tick_size);
        let whole: u64 = if q > 0 {
            proof {
                assert(q / 1_000_000 <= q) by (nonlinear_arith)
                    requires q > 0;
                assert(q <= 0x1_0000_0000_0000_0000);
            }
            (q / (SCALE as i128)) as u64
        } else {
            0
        };
        r.push(whole);
        i += 1;
    }
    r
}

} // verus!
