use series_poll::config::{RefreshConfig, MIN_PERIOD_TICKS};

#[test]
fn zero_period_is_clamped_to_one_tick() {
    assert_eq!(RefreshConfig::new(0).period(), 1);
    assert_eq!(MIN_PERIOD_TICKS, 1);
}

#[test]
fn other_periods_are_kept() {
    assert_eq!(RefreshConfig::new(1).period(), 1);
    assert_eq!(RefreshConfig::new(60).period(), 60);
    assert_eq!(RefreshConfig::new(u16::MAX).period(), 65535);
    assert_eq!(RefreshConfig::new(0).refresh_period_ticks, 0);
}
