//! Dual-phase synthetic share pricing.
//!
//! Prices are fixed-point amounts of the quote currency: an amount of
//! `PRICE_SCALE` units is one whole unit of currency. Adjustment factors are
//! given in parts per million of the price. Volumes may be in any unit, since
//! only their ratio enters the price; recency is measured in seconds.
use vstd::prelude::*;

use crate::error::AnalysisError;

verus! {

/// Fixed-point units in one whole unit of the quote currency.
pub const PRICE_SCALE: u64 = 1_000_000_000;

/// Fixed-point units in a tenth of a unit of the quote currency.
pub const PRICE_TENTH: u64 = 100_000_000;

/// The denominator of factors expressed in parts per million.
pub const PPM: u64 = 1_000_000;

/// Up to this many holders, each holder adds a tenth of a unit to the base price.
pub const HOLDER_RAMP_LIMIT: u32 = 10;

/// Standard volume adjustment: 1% of the base price per unit of volume ratio.
pub const VOLUME_ADJUSTMENT_PPM: u32 = 10_000;

/// Standard inactivity discount: 0.5% off the base price.
pub const INACTIVITY_ADJUSTMENT_PPM: u32 = 5_000;

/// Standard inactivity threshold: 24 hours, in seconds.
pub const INACTIVITY_THRESHOLD_SECS: u64 = 86_400;

/// The fixed policy parameters of the pricing model.
#[derive(Clone, Copy, Debug, PartialEq, Eq, Structural)]
pub struct PricingConfig {
    /// Price increase, in parts per million of the base price, for each unit
    /// of the ratio of current to average volume (active phase only).
    pub volume_adjustment_ppm: u32,
    /// Price decrease, in parts per million of the base price, once trading
    /// has been inactive for longer than the threshold.
    pub inactivity_adjustment_ppm: u32,
    /// Seconds without a trade after which the inactivity phase applies.
    pub inactivity_threshold_secs: u64,
}

impl PricingConfig {
    /// A discount can take at most the whole base price.
    pub open spec fn wf(&self) -> bool {
        self.inactivity_adjustment_ppm <= PPM
    }

    /// The standard policy: +1% per unit of volume ratio, -0.5% after 24 hours
    /// without a trade.
    pub open spec fn standard_spec() -> Self {
        PricingConfig {
            volume_adjustment_ppm: VOLUME_ADJUSTMENT_PPM,
            inactivity_adjustment_ppm: INACTIVITY_ADJUSTMENT_PPM,
            inactivity_threshold_secs: INACTIVITY_THRESHOLD_SECS,
        }
    }

    /// The standard policy, as a value.
    pub fn standard() -> (c: Self)
        ensures
            c == Self::standard_spec(),
            c.wf(),
    {
        PricingConfig {
            volume_adjustment_ppm: VOLUME_ADJUSTMENT_PPM,
            inactivity_adjustment_ppm: INACTIVITY_ADJUSTMENT_PPM,
            inactivity_threshold_secs: INACTIVITY_THRESHOLD_SECS,
        }
    }
}

/// Base price in fixed-point units: a tenth of a unit per holder up to the
/// ramp limit, then one unit per holder beyond it, starting from one unit.
/// The step from 10 to 11 holders (1.0 to 2.0) is deliberate.
pub open spec fn base_price_spec(holders: nat) -> nat {
    if holders <= HOLDER_RAMP_LIMIT {
        holders * PRICE_TENTH as nat
    } else {
        ((holders - HOLDER_RAMP_LIMIT) + 1) as nat * PRICE_SCALE as nat
    }
}

/// Whether trading has been quiet for longer than the threshold.
pub open spec fn is_inactive(config: PricingConfig, time_since_last_trade: nat) -> bool {
    time_since_last_trade > config.inactivity_threshold_secs
}

/// The price in the inactivity phase: the base less the inactivity discount,
/// rounded down.
pub open spec fn inactive_price(config: PricingConfig, base: nat) -> nat {
    (base * (PPM - config.inactivity_adjustment_ppm) as nat / PPM as nat) as nat
}

/// The price in the active phase: the base plus
/// `base * factor * current_volume / average_volume`, the adjustment rounded down.
pub open spec fn active_price(
    config: PricingConfig,
    base: nat,
    current_volume: nat,
    average_volume: nat,
) -> nat
    recommends
        average_volume > 0,
{
    base + ((base * config.volume_adjustment_ppm * current_volume) / (PPM * average_volume)) as nat
}

/// The dual-phase price, for a positive average volume.
pub open spec fn phase_price(
    config: PricingConfig,
    holders: nat,
    current_volume: nat,
    average_volume: nat,
    time_since_last_trade: nat,
) -> nat {
    let base = base_price_spec(holders);
    if is_inactive(config, time_since_last_trade) {
        inactive_price(config, base)
    } else {
        active_price(config, base, current_volume, average_volume)
    }
}

/// The base price for a number of holders, in fixed-point units
/// (`PRICE_SCALE` per unit of currency).
pub fn base_price_from_holders(current_holders: u32) -> (r: u64)
    ensures
        r == base_price_spec(current_holders as nat),
        r < 0x4000_0000_0000_0000,
{
    if current_holders <= HOLDER_RAMP_LIMIT {
        current_holders as u64 * PRICE_TENTH
    } else {
        let steps = (current_holders - HOLDER_RAMP_LIMIT) as u64 + 1;
        assert(steps * PRICE_SCALE < 0x4000_0000_0000_0000) by (nonlinear_arith)
            requires
                steps <= 0x1_0000_0000,
                PRICE_SCALE == 1_000_000_000,
        ;
        steps * PRICE_SCALE
    }
}

/// The dual-phase price under a given policy, in fixed-point units.
///
/// Fails with `DivisionByZero` exactly when `average_volume` is zero, whatever
/// the phase. Otherwise, after more than `inactivity_threshold_secs` seconds
/// without a trade the price is the discounted base price, independent of
/// volume; else it is the base price raised in proportion to the volume ratio.
pub fn dual_phase_pricing_with(
    config: &PricingConfig,
    current_holders: u32,
    current_volume: u32,
    average_volume: u32,
    time_since_last_trade: u64,
) -> (r: Result<u128, AnalysisError>)
    requires
        config.wf(),
    ensures
        average_volume == 0 ==> r == Err::<u128, AnalysisError>(AnalysisError::DivisionByZero),
        average_volume > 0 ==> r == Ok::<u128, AnalysisError>(
            phase_price(
                *config,
                current_holders as nat,
                current_volume as nat,
                average_volume as nat,
                time_since_last_trade as nat,
            ) as u128,
        ),
{
    if average_volume == 0 {
        return Err(AnalysisError::DivisionByZero);
    }
    let base = base_price_from_holders(current_holders);
    let base_wide = base as u128;
    assert(base_wide < 0x4000_0000_0000_0000);
    if time_since_last_trade > config.inactivity_threshold_secs {
        let kept = (PPM - config.inactivity_adjustment_ppm as u64) as u128;
        assert(base_wide * kept <= (u64::MAX as u128) * (PPM as u128)) by (nonlinear_arith)
            requires
                base_wide <= u64::MAX,
                kept <= PPM,
        ;
        Ok(base_wide * kept / (PPM as u128))
    } else {
        let factor = config.volume_adjustment_ppm as u128;
        let volume = current_volume as u128;
        assert(base_wide * factor <= 0x4000_0000_0000_0000 * 0x1_0000_0000) by (nonlinear_arith)
            requires
                base_wide < 0x4000_0000_0000_0000,
                factor < 0x1_0000_0000,
        ;
        let scaled = base_wide * factor;
        assert(scaled * volume <= 0x4000_0000_0000_0000 * 0x1_0000_0000 * 0x1_0000_0000)
            by (nonlinear_arith)
            requires
                scaled <= 0x4000_0000_0000_0000 * 0x1_0000_0000,
                volume < 0x1_0000_0000,
        ;
        let numerator = scaled * volume;
        let denominator = (PPM as u128) * (average_volume as u128);
        let adjustment = numerator / denominator;
        assert(adjustment <= numerator) by (nonlinear_arith)
            requires
                denominator >= 1,
                adjustment == numerator / denominator,
                numerator >= 0,
        ;
        Ok(base_wide + adjustment)
    }
}

/// The dual-phase price under the standard policy, in fixed-point units.
pub fn dual_phase_pricing(
    current_holders: u32,
    current_volume: u32,
    average_volume: u32,
    time_since_last_trade: u64,
) -> (r: Result<u128, AnalysisError>)
    ensures
        average_volume == 0 ==> r == Err::<u128, AnalysisError>(AnalysisError::DivisionByZero),
        average_volume > 0 ==> r == Ok::<u128, AnalysisError>(
            phase_price(
                PricingConfig::standard_spec(),
                current_holders as nat,
                current_volume as nat,
                average_volume as nat,
                time_since_last_trade as nat,
            ) as u128,
        ),
{
    dual_phase_pricing_with(&PricingConfig::standard(), current_holders, current_volume, average_volume, time_since_last_trade)
}

} // verus!
