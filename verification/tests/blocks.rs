use possum::blocks::{ceil_multiple, checked_ceil_multiple, floored_multiple};

#[test]
fn floored_multiple_rounds_down() {
    assert_eq!(floored_multiple(0, 4096), 0);
    assert_eq!(floored_multiple(4095, 4096), 0);
    assert_eq!(floored_multiple(4096, 4096), 4096);
    assert_eq!(floored_multiple(4097, 4096), 4096);
    assert_eq!(floored_multiple(10, 3), 9);
    assert_eq!(floored_multiple(u64::MAX, 1), u64::MAX);
    assert_eq!(floored_multiple(u64::MAX, 4096), u64::MAX - 4095);
}

#[test]
fn ceil_multiple_rounds_up() {
    assert_eq!(ceil_multiple(0, 4096), 0);
    assert_eq!(ceil_multiple(1, 4096), 4096);
    assert_eq!(ceil_multiple(4096, 4096), 4096);
    assert_eq!(ceil_multiple(4097, 4096), 8192);
    assert_eq!(ceil_multiple(10, 3), 12);
    assert_eq!(ceil_multiple(7, 1), 7);
}

#[test]
fn checked_ceil_multiple_agrees_with_ceil_multiple() {
    for value in [0u64, 1, 4095, 4096, 4097, 12345678] {
        for multiple in [1u64, 2, 3, 512, 4096] {
            assert_eq!(checked_ceil_multiple(value, multiple), Some(ceil_multiple(value, multiple)));
        }
    }
}

#[test]
fn checked_ceil_multiple_reports_what_has_no_ceiling() {
    assert_eq!(checked_ceil_multiple(5, 0), None);
    assert_eq!(checked_ceil_multiple(u64::MAX, 4096), None);
    assert_eq!(checked_ceil_multiple(u64::MAX - 4094, 4096), None);
    assert_eq!(checked_ceil_multiple(u64::MAX - 4095, 4096), Some(u64::MAX - 4095));
    assert_eq!(checked_ceil_multiple(u64::MAX, 1), Some(u64::MAX));
    assert_eq!(checked_ceil_multiple(u64::MAX, u64::MAX), Some(u64::MAX));
}
