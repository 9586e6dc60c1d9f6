//! Moving Average Convergence Divergence: the difference of a fast and a
//! slow moving average, and a signal line that smooths that difference.
use vstd::prelude::*;

use crate::ema::{compute_ema, ema_at, lemma_ema_in_range, prices_of, PricePoint};
use crate::error::AnalysisError;

verus! {

/// Standard fast smoothing period.
pub const FAST_PERIOD: usize = 12;

/// Standard slow smoothing period; also the shortest series analyzed.
pub const SLOW_PERIOD: usize = 26;

/// Standard smoothing period of the signal line.
pub const SIGNAL_PERIOD: usize = 9;

/// The largest price magnitude for which the difference of two averages
/// still fits a 64-bit value.
pub const MACD_PRICE_LIMIT: i64 = 0x3FFF_FFFF_FFFF_FFFF;

/// The smoothing periods of a MACD analysis.
#[derive(Clone, Copy, Debug, PartialEq, Eq, Structural)]
pub struct MacdConfig {
    pub fast: usize,
    pub slow: usize,
    pub signal: usize,
}

impl MacdConfig {
    /// The conventional periods 12, 26 and 9.
    pub open spec fn standard_spec() -> Self {
        MacdConfig { fast: FAST_PERIOD, slow: SLOW_PERIOD, signal: SIGNAL_PERIOD }
    }

    /// The conventional periods, as a value.
    pub fn standard() -> (c: Self)
        ensures
            c == Self::standard_spec(),
    {
        MacdConfig { fast: FAST_PERIOD, slow: SLOW_PERIOD, signal: SIGNAL_PERIOD }
    }

    /// Whether every period is positive.
    pub open spec fn periods_positive(&self) -> bool {
        self.fast > 0 && self.slow > 0 && self.signal > 0
    }
}

/// Every price of the series is within `MACD_PRICE_LIMIT` of zero.
pub open spec fn within_macd_limit(s: Seq<PricePoint>) -> bool {
    forall|i: int| 0 <= i < s.len() ==> -MACD_PRICE_LIMIT <= #[trigger] s[i].price <= MACD_PRICE_LIMIT
}

/// The MACD value at index `i`: fast average less slow average.
pub open spec fn macd_at(xs: Seq<int>, config: MacdConfig, i: nat) -> int {
    ema_at(xs, config.fast as nat, i) - ema_at(xs, config.slow as nat, i)
}

/// The whole MACD line, index-aligned with the prices.
pub open spec fn macd_line(xs: Seq<int>, config: MacdConfig) -> Seq<int> {
    Seq::new(xs.len(), |i: int| macd_at(xs, config, i as nat))
}

/// The signal line at index `i`: the moving average of the MACD line.
pub open spec fn signal_at(xs: Seq<int>, config: MacdConfig, i: nat) -> int {
    ema_at(macd_line(xs, config), config.signal as nat, i)
}

/// The MACD line and its signal line under the given periods.
///
/// Fails with `InvalidPeriod` when a period is zero, else with
/// `InsufficientData` when the series is shorter than the slow period.
/// Otherwise both lines have one value per point of the series, as
/// `macd_at` and `signal_at` give them.
pub fn compute_macd_with(series: &[PricePoint], config: MacdConfig) -> (r: Result<(Vec<i64>, Vec<i64>), AnalysisError>)
    requires
        within_macd_limit(series@),
    ensures
        !config.periods_positive() ==> r == Err::<(Vec<i64>, Vec<i64>), AnalysisError>(AnalysisError::InvalidPeriod),
        config.periods_positive() && series@.len() < config.slow
            ==> r == Err::<(Vec<i64>, Vec<i64>), AnalysisError>(AnalysisError::InsufficientData),
        config.periods_positive() && series@.len() >= config.slow ==> r is Ok,
        r is Ok ==> r->Ok_0.0@.len() == series@.len() && r->Ok_0.1@.len() == series@.len(),
        r is Ok ==> forall|i: int|
            0 <= i < series@.len() ==> r->Ok_0.0@[i] == #[trigger] macd_at(prices_of(series@), config, i as nat),
        r is Ok ==> forall|i: int|
            0 <= i < series@.len() ==> r->Ok_0.1@[i] == #[trigger] signal_at(prices_of(series@), config, i as nat),
{
    if config.fast == 0 || config.slow == 0 || config.signal == 0 {
        return Err(AnalysisError::InvalidPeriod);
    }
    let n = series.len();
    if n < config.slow {
        return Err(AnalysisError::InsufficientData);
    }
    let ghost xs = prices_of(series@);
    let fast = match compute_ema(series, config.fast) {
        Ok(v) => v,
        Err(e) => return Err(e),
    };
    let slow = match compute_ema(series, config.slow) {
        Ok(v) => v,
        Err(e) => return Err(e),
    };
    proof {
        assert forall|j: int| 0 <= j < xs.len() implies -MACD_PRICE_LIMIT <= #[trigger] xs[j] <= MACD_PRICE_LIMIT by {
            assert(series@[j].price == xs[j]);
        }
    }
    let mut macd: Vec<i64> = Vec::with_capacity(n);
    let mut synthetic: Vec<PricePoint> = Vec::with_capacity(n);
    let mut i: usize = 0;
    while i < n
        invariant
            0 <= i <= n,
            n == series@.len(),
            xs == prices_of(series@),
            config.periods_positive(),
            fast@.len() == n,
            slow@.len() == n,
            forall|t: int| 0 <= t < n ==> fast@[t] == ema_at(xs, config.fast as nat, t as nat),
            forall|t: int| 0 <= t < n ==> slow@[t] == ema_at(xs, config.slow as nat, t as nat),
            forall|j: int| 0 <= j < xs.len() ==> -MACD_PRICE_LIMIT <= #[trigger] xs[j] <= MACD_PRICE_LIMIT,
            macd@.len() == i,
            synthetic@.len() == i,
            forall|t: int| 0 <= t < i ==> macd@[t] == #[trigger] macd_at(xs, config, t as nat),
            forall|t: int| 0 <= t < i ==> (#[trigger] synthetic@[t]).price == macd@[t],
        decreases n - i,
    {
        proof {
            lemma_ema_in_range(xs, config.fast as nat, i as nat, -MACD_PRICE_LIMIT, MACD_PRICE_LIMIT as int);
            lemma_ema_in_range(xs, config.slow as nat, i as nat, -MACD_PRICE_LIMIT, MACD_PRICE_LIMIT as int);
        }
        let value = fast[i] - slow[i];
        macd.push(value);
        synthetic.push(PricePoint { timestamp: series[i].timestamp, price: value });
        i = i + 1;
    }
    assert(prices_of(synthetic@) =~= macd_line(xs, config));
    let signal = match compute_ema(synthetic.as_slice(), config.signal) {
        Ok(v) => v,
        Err(e) => return Err(e),
    };
    Ok((macd, signal))
}

/// The MACD line and its signal line under the standard periods 12, 26, 9.
///
/// Fails with `InsufficientData` exactly when the series has fewer than 26
/// points; otherwise both lines have one value per point of the series.
pub fn compute_macd(series: &[PricePoint]) -> (r: Result<(Vec<i64>, Vec<i64>), AnalysisError>)
    requires
        within_macd_limit(series@),
    ensures
        series@.len() < SLOW_PERIOD ==> r == Err::<(Vec<i64>, Vec<i64>), AnalysisError>(AnalysisError::InsufficientData),
        series@.len() >= SLOW_PERIOD ==> r is Ok,
        r is Ok ==> r->Ok_0.0@.len() == series@.len() && r->Ok_0.1@.len() == series@.len(),
        r is Ok ==> forall|i: int|
            0 <= i < series@.len() ==> r->Ok_0.0@[i] == #[trigger] macd_at(prices_of(series@), MacdConfig::standard_spec(), i as nat),
        r is Ok ==> forall|i: int|
            0 <= i < series@.len() ==> r->Ok_0.1@[i] == #[trigger] signal_at(prices_of(series@), MacdConfig::standard_spec(), i as nat),
{
    compute_macd_with(series, MacdConfig::standard())
}

} // verus!
