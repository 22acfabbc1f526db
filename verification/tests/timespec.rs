use cargo_registry::timespec::{freeze_cutoff, Timespec, SECONDS_PER_DAY};

#[test]
fn days_are_counted_from_the_epoch() {
    assert_eq!(SECONDS_PER_DAY, 86_400);
    assert_eq!(Timespec::new(0, 0).day(), 0);
    assert_eq!(Timespec::new(86_399, 999).day(), 0);
    assert_eq!(Timespec::new(86_400, 0).day(), 1);
    assert_eq!(Timespec::new(1_423_872_000, 0).day(), 16_480);
}

#[test]
fn days_before_the_epoch_round_down() {
    assert_eq!(Timespec::new(-1, 0).day(), -1);
    assert_eq!(Timespec::new(-86_400, 0).day(), -1);
    assert_eq!(Timespec::new(-86_401, 0).day(), -2);
    assert_eq!(Timespec::new(i64::MIN, 0).day(), -106_751_991_167_301);
    assert_eq!(Timespec::new(i64::MAX, 0).day(), 106_751_991_167_300);
}

#[test]
fn instants_are_ordered_by_seconds_then_nanoseconds() {
    let t = Timespec::new(10, 5);
    assert!(Timespec::new(9, 900).is_before(&t));
    assert!(Timespec::new(10, 4).is_before(&t));
    assert!(!Timespec::new(10, 5).is_before(&t));
    assert!(!Timespec::new(10, 6).is_before(&t));
    assert!(!Timespec::new(11, 0).is_before(&t));
}

#[test]
fn the_cutoff_lies_a_day_back() {
    assert_eq!(freeze_cutoff(Timespec::new(100_000, 7)), Timespec::new(13_600, 7));
    assert_eq!(freeze_cutoff(Timespec::new(0, 0)), Timespec::new(-86_400, 0));
    assert_eq!(
        freeze_cutoff(Timespec::new(i64::MIN + 86_400, 0)),
        Timespec::new(i64::MIN, 0)
    );
}
