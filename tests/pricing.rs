use market_signals::{base_price_from_holders, dual_phase_pricing, dual_phase_pricing_with, AnalysisError, PricingConfig};

const UNIT: f64 = 1_000_000_000.0;

#[test]
fn base_price_steps_from_ten_to_eleven_holders() {
    assert_eq!(base_price_from_holders(10), 1_000_000_000);
    assert_eq!(base_price_from_holders(11), 2_000_000_000);
}

#[test]
fn base_price_ramp_and_beyond() {
    assert_eq!(base_price_from_holders(0), 0);
    assert_eq!(base_price_from_holders(1), 100_000_000);
    assert_eq!(base_price_from_holders(50), 41_000_000_000);
    assert_eq!(base_price_from_holders(u32::MAX), 4_294_967_286_000_000_000);
}

#[test]
fn pricing_with_zero_average_volume_fails() {
    for (holders, volume, secs) in [(0u32, 0u32, 0u64), (1, 10, 3_600), (50, 5, 90_000), (u32::MAX, u32::MAX, u64::MAX)] {
        assert_eq!(dual_phase_pricing(holders, volume, 0, secs), Err(AnalysisError::DivisionByZero));
    }
}

#[test]
fn pricing_active_phase_one_holder() {
    let price = dual_phase_pricing(1, 10, 7, 3_600).unwrap();
    assert_eq!(price, 101_428_571);
    assert!((price as f64 / UNIT - 0.10143).abs() < 1e-5);
}

#[test]
fn pricing_active_phase_fifty_holders() {
    let price = dual_phase_pricing(50, 5, 7, 12 * 3_600).unwrap();
    assert_eq!(price, 41_292_857_142);
    assert!((price as f64 / UNIT - 41.293).abs() < 1e-3);
}

#[test]
fn pricing_inactivity_phase_ignores_volume() {
    let price = dual_phase_pricing(50, 5, 7, 25 * 3_600).unwrap();
    assert_eq!(price, 40_795_000_000);
    assert_eq!(dual_phase_pricing(50, 1_000_000, 3, 25 * 3_600), Ok(price));
}

#[test]
fn pricing_threshold_is_exclusive() {
    let at = dual_phase_pricing(50, 7, 7, 86_400).unwrap();
    assert_eq!(at, 41_410_000_000);
    assert_eq!(dual_phase_pricing(50, 7, 7, 86_401), Ok(40_795_000_000));
}

#[test]
fn pricing_with_custom_config() {
    let config = PricingConfig {
        volume_adjustment_ppm: 500_000,
        inactivity_adjustment_ppm: 1_000_000,
        inactivity_threshold_secs: 60,
    };
    // base 2.0, ratio 3 / 2, +50% per unit ratio: 2.0 * 1.75
    assert_eq!(dual_phase_pricing_with(&config, 11, 3, 2, 60), Ok(3_500_000_000));
    assert_eq!(dual_phase_pricing_with(&config, 11, 3, 2, 61), Ok(0));
    assert_eq!(dual_phase_pricing_with(&config, 11, 3, 0, 61), Err(AnalysisError::DivisionByZero));
}

#[test]
fn pricing_standard_config_values() {
    let c = PricingConfig::standard();
    assert_eq!(c.volume_adjustment_ppm, 10_000);
    assert_eq!(c.inactivity_adjustment_ppm, 5_000);
    assert_eq!(c.inactivity_threshold_secs, 86_400);
}

#[test]
fn pricing_extreme_inputs_do_not_overflow() {
    let price = dual_phase_pricing(u32::MAX, u32::MAX, 1, 0).unwrap();
    let base = 4_294_967_286_000_000_000u128;
    assert_eq!(price, base + base * 10_000 * u32::MAX as u128 / 1_000_000);
}

#[test]
fn error_messages_are_distinct() {
    let a = AnalysisError::InvalidPeriod.message();
    let b = AnalysisError::InsufficientData.message();
    let c = AnalysisError::DivisionByZero.message();
    assert!(a != b && b != c && a != c);
}
