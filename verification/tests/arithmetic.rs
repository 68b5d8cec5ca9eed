use nbody::arith::{isqrt, saturate, LIMIT};
use nbody::fixed::{Fixed, MILLI, SCALE};
use nbody::vector::Vector3;

#[test]
fn saturate_keeps_values_in_range() {
    assert_eq!(saturate(0), 0);
    assert_eq!(saturate(-42), -42);
    assert_eq!(saturate(LIMIT as i128), LIMIT);
    assert_eq!(saturate(-(LIMIT as i128)), -LIMIT);
}

#[test]
fn saturate_clips_to_symmetric_range() {
    assert_eq!(saturate(LIMIT as i128 + 1), LIMIT);
    assert_eq!(saturate(i64::MIN as i128), -LIMIT);
    assert_eq!(saturate(i128::MAX), LIMIT);
    assert_eq!(saturate(i128::MIN), -LIMIT);
}

#[test]
fn isqrt_rounds_down() {
    assert_eq!(isqrt(0), 0);
    assert_eq!(isqrt(1), 1);
    assert_eq!(isqrt(15), 3);
    assert_eq!(isqrt(16), 4);
    assert_eq!(isqrt(17), 4);
    assert_eq!(isqrt(1_000_000_000_000_000_000_000_000), 1_000_000_000_000);
}

#[test]
fn isqrt_of_largest_argument() {
    assert_eq!(isqrt(u128::MAX), u64::MAX);
}

#[test]
fn fixed_constructors_scale_exactly() {
    assert_eq!(SCALE, 1_000_000_000_000);
    assert_eq!(MILLI, 1_000_000_000);
    assert_eq!(Fixed::zero().raw(), 0);
    assert_eq!(Fixed::from_raw(-7).raw(), -7);
    assert_eq!(Fixed::from_int(3).raw(), 3_000_000_000_000);
    assert_eq!(Fixed::from_int(-5).raw(), -5_000_000_000_000);
    assert_eq!(Fixed::from_millis(-17).raw(), -17_000_000_000);
    assert_eq!(Fixed::from_millis(1_988_500_000).raw(), 1_988_500_000_000_000_000);
}

#[test]
fn fixed_constructors_saturate() {
    assert_eq!(Fixed::from_int(i64::MAX).raw(), LIMIT);
    assert_eq!(Fixed::from_int(i64::MIN).raw(), -LIMIT);
    assert_eq!(Fixed::from_millis(10_000_000_000).raw(), LIMIT);
}

#[test]
fn fixed_is_positive_is_strict() {
    assert!(Fixed::from_raw(1).is_positive());
    assert!(!Fixed::zero().is_positive());
    assert!(!Fixed::from_raw(-1).is_positive());
}

#[test]
fn fixed_add_and_sub_are_exact_in_range() {
    let a = Fixed::from_millis(1_500);
    let b = Fixed::from_millis(-2_250);
    assert_eq!(a.saturating_add(b).raw(), -750_000_000_000);
    assert_eq!(a.saturating_sub(b).raw(), 3_750_000_000_000);
}

#[test]
fn fixed_add_and_sub_saturate() {
    let top = Fixed::from_raw(LIMIT);
    let one = Fixed::from_raw(1);
    assert_eq!(top.saturating_add(one).raw(), LIMIT);
    assert_eq!(Fixed::from_raw(-LIMIT).saturating_sub(one).raw(), -LIMIT);
    assert_eq!(Fixed::from_raw(i64::MIN).saturating_sub(Fixed::zero()).raw(), -LIMIT);
}

#[test]
fn fixed_mul_rounds_toward_zero() {
    let half = Fixed::from_millis(500);
    assert_eq!(Fixed::from_millis(1_500).saturating_mul(Fixed::from_millis(-2_500)).raw(), -3_750_000_000_000);
    assert_eq!(Fixed::from_raw(3).saturating_mul(half).raw(), 1);
    assert_eq!(Fixed::from_raw(-3).saturating_mul(half).raw(), -1);
    assert_eq!(Fixed::from_raw(1).saturating_mul(half).raw(), 0);
}

#[test]
fn fixed_mul_saturates() {
    let a = Fixed::from_int(3_000_000);
    let b = Fixed::from_int(4_000_000);
    assert_eq!(a.saturating_mul(b).raw(), LIMIT);
    assert_eq!(Fixed::from_raw(-LIMIT).saturating_mul(Fixed::from_int(2)).raw(), -LIMIT);
    assert_eq!(Fixed::from_raw(i64::MIN).saturating_mul(Fixed::from_raw(i64::MIN)).raw(), LIMIT);
}

#[test]
fn fixed_mul_by_zero_is_zero() {
    assert_eq!(Fixed::from_raw(LIMIT).saturating_mul(Fixed::zero()).raw(), 0);
    assert_eq!(Fixed::zero().saturating_mul(Fixed::from_raw(i64::MIN)).raw(), 0);
}

#[test]
fn vector_operations_work_by_component() {
    let a = Vector3::new(Fixed::from_int(1), Fixed::from_int(2), Fixed::from_int(3));
    let b = Vector3::new(Fixed::from_int(10), Fixed::from_int(-20), Fixed::from_millis(500));
    let sum = a.saturating_add(b);
    let diff = a.saturating_sub(b);
    let scaled = b.scale(Fixed::from_millis(500));
    assert_eq!(sum, Vector3::new(Fixed::from_int(11), Fixed::from_int(-18), Fixed::from_millis(3_500)));
    assert_eq!(diff, Vector3::new(Fixed::from_int(-9), Fixed::from_int(22), Fixed::from_millis(2_500)));
    assert_eq!(scaled, Vector3::new(Fixed::from_int(5), Fixed::from_int(-10), Fixed::from_millis(250)));
    assert_eq!(Vector3::zero(), Vector3::new(Fixed::zero(), Fixed::zero(), Fixed::zero()));
}
