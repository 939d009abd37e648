use kill_timer::timer::Timer;

#[test]
fn unarmed_timer_has_no_remaining_time() {
    let t = Timer::new();
    assert!(!t.is_armed());
    assert_eq!(t.remaining(12_345), None);
}

#[test]
fn remaining_counts_whole_seconds_down_to_zero() {
    let mut t = Timer::new();
    t.arm(5, 1_000);
    assert!(t.is_armed());
    assert_eq!(t.remaining(1_000), Some(5));
    assert_eq!(t.remaining(1_999), Some(5));
    assert_eq!(t.remaining(3_999), Some(3));
    assert_eq!(t.remaining(5_999), Some(1));
    assert_eq!(t.remaining(6_000), Some(0));
    assert_eq!(t.remaining(1_000_000), Some(0));
    assert_eq!(t.remaining(0), Some(5));
}

#[test]
fn remaining_never_grows() {
    let mut t = Timer::new();
    t.arm(3, 0);
    let mut last = t.remaining(0).unwrap();
    for now in (0..10_000u64).step_by(250) {
        let r = t.remaining(now).unwrap();
        assert!(r <= last);
        last = r;
    }
    assert_eq!(last, 0);
}

#[test]
fn rearming_and_disarming() {
    let mut t = Timer::new();
    t.arm(10, 0);
    t.arm(2, 5_000);
    assert_eq!(t.total_seconds, 2);
    assert_eq!(t.remaining(6_000), Some(1));
    t.disarm();
    assert_eq!(t.remaining(6_000), None);
    assert_eq!(t.total_seconds, 2);
}
