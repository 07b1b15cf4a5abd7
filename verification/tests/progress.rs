use smooth::{Progress, UNIT};

#[test]
fn unit_is_two_to_the_thirty_two() {
    assert_eq!(UNIT, 4_294_967_296);
}

#[test]
fn ends_of_a_segment() {
    assert_eq!(Progress::zero().raw(), 0);
    assert_eq!(Progress::one().raw(), UNIT);
    assert!(!Progress::zero().is_complete());
    assert!(Progress::one().is_complete());
    assert!(!Progress::from_raw(UNIT - 1).is_complete());
}

#[test]
fn from_raw_holds_to_one() {
    assert_eq!(Progress::from_raw(0).raw(), 0);
    assert_eq!(Progress::from_raw(1).raw(), 1);
    assert_eq!(Progress::from_raw(UNIT - 1).raw(), UNIT - 1);
    assert_eq!(Progress::from_raw(UNIT).raw(), UNIT);
    assert_eq!(Progress::from_raw(UNIT + 1).raw(), UNIT);
    assert_eq!(Progress::from_raw(u64::MAX).raw(), UNIT);
}

#[test]
fn from_ratio_is_exact_on_powers_of_two() {
    assert_eq!(Progress::from_ratio(1, 2).raw(), 2_147_483_648);
    assert_eq!(Progress::from_ratio(1, 4).raw(), 1_073_741_824);
    assert_eq!(Progress::from_ratio(3, 4).raw(), 3_221_225_472);
    assert_eq!(Progress::from_ratio(1, UNIT).raw(), 1);
}

#[test]
fn from_ratio_rounds_up() {
    assert_eq!(Progress::from_ratio(1, 3).raw(), 1_431_655_766);
    assert_eq!(Progress::from_ratio(2, 3).raw(), 2_863_311_531);
    assert_eq!(Progress::from_ratio(1, 1000).raw(), 4_294_968);
    assert_eq!(Progress::from_ratio(1, u64::MAX).raw(), 1);
    assert_eq!(Progress::from_ratio(u64::MAX - 1, u64::MAX).raw(), UNIT);
}

#[test]
fn from_ratio_of_nothing_is_zero() {
    assert_eq!(Progress::from_ratio(0, 1), Progress::zero());
    assert_eq!(Progress::from_ratio(0, u64::MAX), Progress::zero());
}

#[test]
fn from_ratio_holds_to_one() {
    assert_eq!(Progress::from_ratio(1, 1), Progress::one());
    assert_eq!(Progress::from_ratio(7, 3), Progress::one());
    assert_eq!(Progress::from_ratio(u64::MAX, 1), Progress::one());
}

#[test]
fn from_ratio_with_zero_denominator_is_one() {
    assert_eq!(Progress::from_ratio(0, 0), Progress::one());
    assert_eq!(Progress::from_ratio(5, 0), Progress::one());
}

#[test]
fn steps_of_one_nth_add_up_to_one() {
    for den in [1u64, 2, 3, 7, 10, 1000, 44_100, 48_000] {
        let mut p = Progress::zero();
        for _ in 0..den {
            assert!(!p.is_complete());
            p = p.saturating_add(Progress::from_ratio(1, den));
        }
        assert!(p.is_complete());
    }
}

#[test]
fn saturating_add_sums_and_holds_to_one() {
    let quarter = Progress::from_ratio(1, 4);
    let half = Progress::from_ratio(1, 2);
    assert_eq!(quarter.saturating_add(quarter), half);
    assert_eq!(quarter.saturating_add(Progress::zero()), quarter);
    assert_eq!(half.saturating_add(half), Progress::one());
    assert_eq!(half.saturating_add(Progress::from_ratio(3, 4)), Progress::one());
    assert_eq!(Progress::one().saturating_add(Progress::one()), Progress::one());
    assert_eq!(Progress::from_raw(5).saturating_add(Progress::from_raw(6)).raw(), 11);
}
