//! Exponential moving average over a fixed-point price series.
//!
//! With `alpha = 2 / (period + 1)`, each value after the seed is
//! `prev + alpha * (price - prev)`, the increment rounded toward zero. The
//! seed is the average of the first `period` prices, rounded toward zero, and
//! fills every index before the first full window; when the series is shorter
//! than the period, the first price is the seed. The result is index-aligned
//! with the input series.
use vstd::arithmetic::div_mod::{lemma_div_is_ordered, lemma_div_multiples_vanish};
use vstd::prelude::*;

use crate::error::AnalysisError;

verus! {

/// One observation of a series: a timestamp and a fixed-point price.
/// Within a series, timestamps are strictly increasing; the analyses rely on
/// the order given and never re-sort.
#[derive(Clone, Copy, Debug, PartialEq, Eq, Structural)]
pub struct PricePoint {
    pub timestamp: i64,
    pub price: i64,
}

/// The prices of a series, in order.
pub open spec fn prices_of(s: Seq<PricePoint>) -> Seq<int> {
    Seq::new(s.len(), |i: int| s[i].price as int)
}

/// Integer division rounded toward zero.
pub open spec fn div_toward_zero(n: int, d: int) -> int {
    if n >= 0 {
        n / d
    } else {
        -((-n) / d)
    }
}

/// The number of leading prices averaged into the seed.
pub open spec fn seed_len(n: nat, period: nat) -> nat {
    if n >= period {
        period
    } else {
        1
    }
}

/// The sum of the first `k` values.
pub open spec fn sum_prefix(xs: Seq<int>, k: nat) -> int
    decreases k,
{
    if k == 0 {
        0
    } else {
        sum_prefix(xs, (k - 1) as nat) + xs[k - 1]
    }
}

/// The seed: the average of the first `seed_len` values, rounded toward zero.
pub open spec fn ema_seed(xs: Seq<int>, period: nat) -> int {
    let k = seed_len(xs.len(), period);
    div_toward_zero(sum_prefix(xs, k), k as int)
}

/// One smoothing step: `prev + 2 * (x - prev) / (period + 1)`, the increment
/// rounded toward zero.
pub open spec fn ema_step(prev: int, x: int, period: nat) -> int {
    prev + div_toward_zero(2 * (x - prev), (period + 1) as int)
}

/// The moving average at index `i`: the seed up to the end of the first
/// window, then one smoothing step per further price.
pub open spec fn ema_at(xs: Seq<int>, period: nat, i: nat) -> int
    decreases i,
{
    if i == 0 || i < seed_len(xs.len(), period) {
        ema_seed(xs, period)
    } else {
        ema_step(ema_at(xs, period, (i - 1) as nat), xs[i as int], period)
    }
}

proof fn lemma_floor_div_bounds(n: int, d: int, lo: int, hi: int)
    requires
        d > 0,
        lo * d <= n <= hi * d,
    ensures
        lo <= n / d <= hi,
{
    assert(lo * d == d * lo && hi * d == d * hi) by (nonlinear_arith);
    lemma_div_is_ordered(lo * d, n, d);
    lemma_div_is_ordered(n, hi * d, d);
    lemma_div_multiples_vanish(lo, d);
    lemma_div_multiples_vanish(hi, d);
}

/// Division toward zero keeps a quotient within bounds that the exact
/// quotient lies within.
proof fn lemma_div_toward_zero_bounds(n: int, d: int, lo: int, hi: int)
    requires
        d > 0,
        lo * d <= n <= hi * d,
    ensures
        lo <= div_toward_zero(n, d) <= hi,
{
    if n >= 0 {
        lemma_floor_div_bounds(n, d, lo, hi);
    } else {
        assert((-hi) * d == -(hi * d) && (-lo) * d == -(lo * d)) by (nonlinear_arith);
        lemma_floor_div_bounds(-n, d, -hi, -lo);
    }
}

proof fn lemma_sum_prefix_bounds(xs: Seq<int>, k: nat, lo: int, hi: int)
    requires
        k <= xs.len(),
        forall|j: int| 0 <= j < k ==> lo <= #[trigger] xs[j] <= hi,
    ensures
        k * lo <= sum_prefix(xs, k) <= k * hi,
    decreases k,
{
    if k > 0 {
        lemma_sum_prefix_bounds(xs, (k - 1) as nat, lo, hi);
        assert(k * lo == (k - 1) * lo + lo && k * hi == (k - 1) * hi + hi) by (nonlinear_arith);
    } else {
        assert(k * lo == 0 && k * hi == 0) by (nonlinear_arith)
            requires
                k == 0,
        ;
    }
}

/// A smoothing step lands between the previous average and the new price.
proof fn lemma_ema_step_between(prev: int, x: int, period: nat)
    requires
        period > 0,
    ensures
        prev <= x ==> prev <= ema_step(prev, x, period) <= x,
        x <= prev ==> x <= ema_step(prev, x, period) <= prev,
{
    let delta = x - prev;
    let d = (period + 1) as int;
    if delta >= 0 {
        assert(0 * d <= 2 * delta <= delta * d) by (nonlinear_arith)
            requires
                delta >= 0,
                d >= 2,
        ;
        lemma_div_toward_zero_bounds(2 * delta, d, 0, delta);
    } else {
        assert(delta * d <= 2 * delta <= 0 * d) by (nonlinear_arith)
            requires
                delta < 0,
                d >= 2,
        ;
        lemma_div_toward_zero_bounds(2 * delta, d, delta, 0);
    }
}

/// Every value of the moving average lies within the range of the prices.
pub(crate) proof fn lemma_ema_in_range(xs: Seq<int>, period: nat, i: nat, lo: int, hi: int)
    requires
        period > 0,
        i < xs.len(),
        forall|j: int| 0 <= j < xs.len() ==> lo <= #[trigger] xs[j] <= hi,
    ensures
        lo <= ema_at(xs, period, i) <= hi,
    decreases i,
{
    let k = seed_len(xs.len(), period);
    if i < k {
        lemma_sum_prefix_bounds(xs, k, lo, hi);
        lemma_div_toward_zero_bounds(sum_prefix(xs, k), k as int, lo, hi);
    } else {
        lemma_ema_in_range(xs, period, (i - 1) as nat, lo, hi);
        lemma_ema_step_between(ema_at(xs, period, (i - 1) as nat), xs[i as int], period);
    }
}

proof fn lemma_sum_prefix_constant(xs: Seq<int>, k: nat, c: int)
    requires
        k <= xs.len(),
        forall|j: int| 0 <= j < k ==> #[trigger] xs[j] == c,
    ensures
        sum_prefix(xs, k) == k * c,
    decreases k,
{
    if k > 0 {
        lemma_sum_prefix_constant(xs, (k - 1) as nat, c);
        assert(k * c == (k - 1) * c + c) by (nonlinear_arith);
    } else {
        assert(k * c == 0) by (nonlinear_arith)
            requires
                k == 0,
        ;
    }
}

proof fn lemma_ema_constant_at(xs: Seq<int>, period: nat, c: int, i: nat)
    requires
        period > 0,
        i < xs.len(),
        forall|j: int| 0 <= j < xs.len() ==> #[trigger] xs[j] == c,
    ensures
        ema_at(xs, period, i) == c,
    decreases i,
{
    let k = seed_len(xs.len(), period);
    if i < k {
        lemma_sum_prefix_constant(xs, k, c);
        lemma_div_toward_zero_bounds(k * c, k as int, c, c);
    } else {
        lemma_ema_constant_at(xs, period, c, (i - 1) as nat);
    }
}

/// The moving average of a constant series is that constant at every index.
pub proof fn lemma_ema_of_constant_series(s: Seq<PricePoint>, period: nat, c: i64)
    requires
        period > 0,
        forall|j: int| 0 <= j < s.len() ==> (#[trigger] s[j]).price == c,
    ensures
        forall|i: int| 0 <= i < s.len() ==> #[trigger] ema_at(prices_of(s), period, i as nat) == c,
{
    let xs = prices_of(s);
    assert forall|i: int| 0 <= i < s.len() implies #[trigger] ema_at(xs, period, i as nat) == c by {
        assert forall|j: int| 0 <= j < xs.len() implies #[trigger] xs[j] == c by {
            assert(s[j].price == c);
        }
        lemma_ema_constant_at(xs, period, c as int, i as nat);
    }
}

/// `n / d` rounded toward zero, on machine integers.
fn div_toward_zero_exec(n: i128, d: i128) -> (q: i128)
    requires
        d > 0,
        n > i128::MIN,
    ensures
        q == div_toward_zero(n as int, d as int),
{
    if n >= 0 {
        let q = (n as u128) / (d as u128);
        assert(q <= n) by (nonlinear_arith)
            requires
                q == (n as u128) / (d as u128),
                n >= 0,
                d >= 1,
        ;
        q as i128
    } else {
        let m = (-n) as u128;
        let q = m / (d as u128);
        assert(q <= m) by (nonlinear_arith)
            requires
                q == m / (d as u128),
                d >= 1,
        ;
        -(q as i128)
    }
}

/// One smoothing step on machine integers.
fn ema_step_exec(prev: i64, x: i64, period: usize) -> (r: i64)
    requires
        period > 0,
    ensures
        r == ema_step(prev as int, x as int, period as nat),
{
    let delta = (x as i128) - (prev as i128);
    let q = div_toward_zero_exec(2 * delta, (period as i128) + 1);
    proof {
        lemma_ema_step_between(prev as int, x as int, period as nat);
    }
    ((prev as i128) + q) as i64
}

/// The exponential moving average of a series' prices for a smoothing period.
///
/// Fails with `InvalidPeriod` exactly when `period` is zero. Otherwise the
/// result has one value per point of the series (none for an empty series),
/// the value at index `i` being `ema_at(prices, period, i)`.
pub fn compute_ema(series: &[PricePoint], period: usize) -> (r: Result<Vec<i64>, AnalysisError>)
    ensures
        period == 0 ==> r == Err::<Vec<i64>, AnalysisError>(AnalysisError::InvalidPeriod),
        period > 0 ==> r is Ok,
        r is Ok ==> r->Ok_0@.len() == series@.len(),
        r is Ok ==> forall|i: int|
            0 <= i < series@.len() ==> r->Ok_0@[i] == ema_at(prices_of(series@), period as nat, i as nat),
{
    if period == 0 {
        return Err(AnalysisError::InvalidPeriod);
    }
    let n = series.len();
    let mut out: Vec<i64> = Vec::with_capacity(n);
    if n == 0 {
        return Ok(out);
    }
    let ghost xs = prices_of(series@);
    let k: usize = if n >= period {
        period
    } else {
        1
    };
    assert(k == seed_len(xs.len(), period as nat));

    let mut sum: i128 = 0;
    let mut j: usize = 0;
    while j < k
        invariant
            0 <= j <= k <= n,
            n == series@.len(),
            xs == prices_of(series@),
            sum == sum_prefix(xs, j as nat),
            j * (i64::MIN as int) <= sum <= j * (i64::MAX as int),
        decreases k - j,
    {
        let x = series[j].price;
        assert((j + 1) * (i64::MIN as int) >= i128::MIN && (j + 1) * (i64::MAX as int) <= i128::MAX)
            by (nonlinear_arith)
            requires
                j + 1 <= usize::MAX,
        ;
        assert((j + 1) * (i64::MIN as int) == j * (i64::MIN as int) + i64::MIN
            && (j + 1) * (i64::MAX as int) == j * (i64::MAX as int) + i64::MAX) by (nonlinear_arith);
        sum = sum + x as i128;
        j = j + 1;
    }
    proof {
        lemma_div_toward_zero_bounds(sum as int, k as int, i64::MIN as int, i64::MAX as int);
    }
    let seed = div_toward_zero_exec(sum, k as i128) as i64;
    assert(seed == ema_seed(xs, period as nat));

    let mut i: usize = 0;
    while i < n
        invariant
            0 <= i <= n,
            n == series@.len(),
            xs == prices_of(series@),
            k == seed_len(xs.len(), period as nat),
            seed == ema_seed(xs, period as nat),
            period > 0,
            out@.len() == i,
            forall|t: int| 0 <= t < i ==> out@[t] == ema_at(xs, period as nat, t as nat),
        decreases n - i,
    {
        let v = if i < k {
            seed
        } else {
            ema_step_exec(out[i - 1], series[i].price, period)
        };
        out.push(v);
        i = i + 1;
    }
    Ok(out)
}

} // verus!
