use orbit_sim::clock::{Now, SimTime, FACTOR};

#[test]
fn default_time_is_zero() {
    assert_eq!(SimTime::default().ticks(), 0);
    assert_eq!(Now::default().0.ticks(), 0);
}

#[test]
fn from_secs_packs_whole_units() {
    assert_eq!(SimTime::from_secs(20).ticks(), 1280);
    assert_eq!(SimTime::from_secs(1).ticks(), FACTOR);
    assert_eq!(SimTime::from_secs(0).ticks(), 0);
}

#[test]
fn largest_exact_whole_units() {
    let largest: u64 = (1u64 << 58) - 1;
    assert!(!SimTime::loses_precision(largest));
    assert_eq!(SimTime::from_secs(largest).ticks(), largest * 64);
}

#[test]
fn packing_too_many_units_is_reported_and_truncated() {
    let too_big: u64 = 1u64 << 58;
    assert!(SimTime::loses_precision(too_big));
    assert_eq!(SimTime::from_secs(too_big).ticks(), 0);
    assert!(SimTime::loses_precision(u64::MAX));
    assert_eq!(SimTime::from_secs(u64::MAX).ticks(), u64::MAX - 63);
    assert_eq!(SimTime::from_secs(too_big + 3).ticks(), 192);
}

#[test]
fn tick_adds_one_sixty_fourth() {
    let mut t = SimTime::from_secs(2);
    t.tick();
    assert_eq!(t.ticks(), 129);
}

#[test]
fn tick_wraps_at_integer_width() {
    let mut t = SimTime::from_ticks(u64::MAX);
    t.tick();
    assert_eq!(t.ticks(), 0);
}

#[test]
fn rem_folds_into_period() {
    let period = SimTime::from_secs(20);
    assert_eq!(SimTime::from_ticks(1300).rem(period).ticks(), 20);
    assert_eq!(SimTime::from_ticks(1279).rem(period).ticks(), 1279);
    assert_eq!(SimTime::from_ticks(0).rem(period).ticks(), 0);
}

#[test]
fn ticking_a_whole_period_returns_to_the_same_phase() {
    let period = SimTime::from_secs(20);
    let mut t = SimTime::from_ticks(37);
    let before = t.rem(period);
    for _ in 0..period.ticks() {
        t.tick();
    }
    assert_eq!(t.ticks(), 37 + 1280);
    assert_eq!(t.rem(period), before);
}

#[test]
fn ticking_a_whole_period_across_the_wrap() {
    let period = SimTime::from_secs(1);
    let mut t = SimTime::from_ticks(u64::MAX - 10);
    let before = t.rem(period);
    for _ in 0..period.ticks() {
        t.tick();
    }
    assert_eq!(t.ticks(), 53);
    assert_eq!(t.rem(period), before);
}

#[test]
fn whole_periods_fold_to_the_same_phase() {
    let period = SimTime::from_secs(20);
    let t = SimTime::from_ticks(501);
    let u = SimTime::from_ticks(501 + 7 * 1280);
    assert_eq!(u.rem(period), t.rem(period));
    assert_eq!(u.rem(period).ticks(), 501);
}
