use market_signals::{compute_macd, compute_macd_with, AnalysisError, MacdConfig, PricePoint};

fn series(prices: &[i64]) -> Vec<PricePoint> {
    let mut out = Vec::new();
    for (i, &price) in prices.iter().enumerate() {
        out.push(PricePoint { timestamp: 86_400_000 * i as i64, price });
    }
    out
}

#[test]
fn macd_needs_twenty_six_points() {
    let prices: Vec<i64> = (0..25).map(|i| 1_000 + i).collect();
    assert_eq!(compute_macd(&series(&prices)), Err(AnalysisError::InsufficientData));
    assert_eq!(compute_macd(&[]), Err(AnalysisError::InsufficientData));
}

#[test]
fn macd_on_twenty_six_points_gives_aligned_lines() {
    let prices: Vec<i64> = (0..26).map(|i| 1_000 + 10 * i).collect();
    let (macd, signal) = compute_macd(&series(&prices)).unwrap();
    assert_eq!(macd.len(), 26);
    assert_eq!(signal.len(), 26);
}

#[test]
fn macd_of_constant_series_is_zero() {
    let (macd, signal) = compute_macd(&series(&[5_000; 40])).unwrap();
    assert_eq!(macd, vec![0; 40]);
    assert_eq!(signal, vec![0; 40]);
}

#[test]
fn macd_of_rising_series_is_positive_after_slow_window() {
    let prices: Vec<i64> = (0..60).map(|i| 1_000 + 10 * i).collect();
    let (macd, _) = compute_macd(&series(&prices)).unwrap();
    assert!(macd[26..].iter().all(|&m| m > 0));
}

#[test]
fn macd_with_small_periods_has_exact_values() {
    let config = MacdConfig { fast: 1, slow: 2, signal: 1 };
    // fast [10, 20, 30]; slow [15, 15, 25]
    let (macd, signal) = compute_macd_with(&series(&[10, 20, 30]), config).unwrap();
    assert_eq!(macd, vec![-5, 5, 5]);
    assert_eq!(signal, vec![-5, 5, 5]);
    let config = MacdConfig { fast: 1, slow: 2, signal: 2 };
    // signal seed (-5 + 5) / 2 = 0, then 0 + 2 * 5 / 3 = 3
    let (_, signal) = compute_macd_with(&series(&[10, 20, 30]), config).unwrap();
    assert_eq!(signal, vec![0, 0, 3]);
}

#[test]
fn macd_with_zero_period_is_invalid() {
    let s = series(&[1; 30]);
    for config in [
        MacdConfig { fast: 0, slow: 26, signal: 9 },
        MacdConfig { fast: 12, slow: 0, signal: 9 },
        MacdConfig { fast: 12, slow: 26, signal: 0 },
    ] {
        assert_eq!(compute_macd_with(&s, config), Err(AnalysisError::InvalidPeriod));
    }
}

#[test]
fn macd_standard_config_has_conventional_periods() {
    assert_eq!(MacdConfig::standard(), MacdConfig { fast: 12, slow: 26, signal: 9 });
}
