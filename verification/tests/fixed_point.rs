use physics2d::fixed::{Fixed, SCALE};
use physics2d::vector::Vector2D;

fn raw(v: i64) -> Fixed {
    Fixed::from_raw(v)
}

#[test]
fn whole_numbers_are_scaled_by_a_million() {
    assert_eq!(SCALE, 1_000_000);
    assert_eq!(Fixed::from_int(2).raw(), 2_000_000);
    assert_eq!(Fixed::from_int(-3).raw(), -3_000_000);
    assert_eq!(Fixed::from_u32(1000).raw(), 1_000_000_000);
    assert_eq!(Fixed::zero().raw(), 0);
    assert_eq!(Fixed::one().raw(), 1_000_000);
    assert_eq!(Fixed::half().raw(), 500_000);
    assert_eq!(Fixed::two().raw(), 2_000_000);
}

#[test]
fn ratios_round_toward_zero() {
    assert_eq!(Fixed::from_ratio(1, 60).raw(), 16_666);
    assert_eq!(Fixed::from_ratio(-1, 3).raw(), -333_333);
    assert_eq!(Fixed::from_ratio(1, -3).raw(), -333_333);
    assert_eq!(Fixed::from_ratio(-2, -3).raw(), 666_666);
    assert_eq!(Fixed::from_ratio(3, 2).raw(), 1_500_000);
}

#[test]
fn sums_and_differences_are_exact_in_range() {
    assert_eq!(raw(1_500_000).add(raw(250_000)), raw(1_750_000));
    assert_eq!(raw(1_500_000).sub(raw(2_000_000)), raw(-500_000));
    assert_eq!(raw(-7).neg(), raw(7));
    assert_eq!(raw(-7).abs(), raw(7));
    assert_eq!(raw(7).abs(), raw(7));
}

#[test]
fn products_round_toward_zero() {
    assert_eq!(raw(1_500_000).mul(raw(2_500_000)), raw(3_750_000));
    assert_eq!(raw(-1_500_000).mul(raw(2_500_000)), raw(-3_750_000));
    assert_eq!(raw(1).mul(raw(500_000)), raw(0));
    assert_eq!(raw(-1).mul(raw(500_000)), raw(0));
    assert_eq!(raw(3).mul(raw(500_000)), raw(1));
    assert_eq!(raw(-3).mul(raw(500_000)), raw(-1));
    assert_eq!(raw(5_000_000).mul(raw(16_666)), raw(83_330));
}

#[test]
fn quotients_round_toward_zero() {
    assert_eq!(raw(1_000_000).div(raw(3_000_000)), raw(333_333));
    assert_eq!(raw(-1_000_000).div(raw(3_000_000)), raw(-333_333));
    assert_eq!(raw(1_000_000).div(raw(-3_000_000)), raw(-333_333));
    assert_eq!(raw(6_000_000).div(raw(2_000_000)), raw(3_000_000));
    assert_eq!(raw(1_000_000).checked_div(raw(0)), None);
    assert_eq!(raw(1_000_000).checked_div(raw(4_000_000)), Some(raw(250_000)));
}

#[test]
fn results_out_of_range_saturate() {
    assert_eq!(raw(i64::MAX).add(raw(1)), raw(i64::MAX));
    assert_eq!(raw(i64::MIN).sub(raw(1)), raw(i64::MIN));
    assert_eq!(raw(i64::MIN).neg(), raw(i64::MAX));
    assert_eq!(raw(i64::MIN).abs(), raw(i64::MAX));
    let big = Fixed::from_int(2_000_000_000);
    assert_eq!(big.mul(big), raw(i64::MAX));
    assert_eq!(big.mul(big.neg()), raw(i64::MIN));
    assert_eq!(raw(i64::MAX).div(raw(1)), raw(i64::MAX));
    assert_eq!(raw(i64::MIN).div(raw(-1)), raw(i64::MAX));
}

#[test]
fn comparisons_follow_the_raw_count() {
    assert!(raw(1).lt(raw(2)));
    assert!(!raw(2).lt(raw(2)));
    assert!(raw(2).le(raw(2)));
    assert!(raw(3).gt(raw(2)));
    assert!(raw(2).ge(raw(2)));
    assert!(raw(0).is_zero());
    assert!(!raw(1).is_zero());
    assert_eq!(raw(1).min(raw(2)), raw(1));
    assert_eq!(raw(1).max(raw(2)), raw(2));
}

#[test]
fn vectors_work_by_component() {
    let a = Vector2D::new(raw(1_000_000), raw(-2_000_000));
    let b = Vector2D::new(raw(500_000), raw(4_000_000));
    assert_eq!(a.add(b), Vector2D::new(raw(1_500_000), raw(2_000_000)));
    assert_eq!(a.sub(b), Vector2D::new(raw(500_000), raw(-6_000_000)));
    assert_eq!(a.scale(raw(2_000_000)), Vector2D::new(raw(2_000_000), raw(-4_000_000)));
    assert_eq!(a.shrink(raw(2_000_000)), Vector2D::new(raw(500_000), raw(-1_000_000)));
    assert_eq!(a.hadamard(b), Vector2D::new(raw(500_000), raw(-8_000_000)));
    assert_eq!(a.dot(b), raw(-7_500_000));
    assert_eq!(a.abs(), Vector2D::new(raw(1_000_000), raw(2_000_000)));
    assert_eq!(Vector2D::zero(), Vector2D::new(raw(0), raw(0)));
}
