use dildonica::ema::ExponentialAverage;
use dildonica::fixed::FP_SCALE;

#[test]
fn first_update_sets_the_average() {
    let mut filter = ExponentialAverage::new(1000);
    assert_eq!(filter.get_average(), None);
    filter.update(5_000_000);
    assert_eq!(filter.get_average(), Some(5_000_000));
}

#[test]
fn full_alpha_tracks_the_latest_input() {
    let mut filter = ExponentialAverage::new(FP_SCALE);
    filter.update(10_000_000);
    assert_eq!(filter.get_average(), Some(10_000_000));
    filter.update(-3_000_000);
    assert_eq!(filter.get_average(), Some(-3_000_000));
    filter.update(0);
    assert_eq!(filter.get_average(), Some(0));
}

#[test]
fn zero_alpha_never_moves_after_the_first_value() {
    let mut filter = ExponentialAverage::new(0);
    filter.update(7_000_000);
    filter.update(123);
    filter.update(-9_999_999);
    assert_eq!(filter.get_average(), Some(7_000_000));
}

#[test]
fn half_alpha_averages_exactly() {
    let mut filter = ExponentialAverage::new(500_000);
    filter.update(2_000_000);
    assert_eq!(filter.get_average(), Some(2_000_000));
    filter.update(0);
    assert_eq!(filter.get_average(), Some(1_000_000));
    filter.update(1_000_000);
    assert_eq!(filter.get_average(), Some(1_000_000));
}

#[test]
fn small_alpha_moves_slowly() {
    // alpha 0.001: one step from 500 toward 600 moves by 0.1 whole units
    let mut filter = ExponentialAverage::new(1000);
    filter.update(500_000_000);
    filter.update(600_000_000);
    assert_eq!(filter.get_average(), Some(500_100_000));
}
