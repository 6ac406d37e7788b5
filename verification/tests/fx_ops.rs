//! Fixed-point arithmetic: exact values, truncation, and saturation.

use maxwell::fx::{fx_abs, fx_add, fx_div, fx_mul, fx_signum, fx_sqrt, fx_sub, FX_ONE};

#[test]
fn multiply_halves_exactly() {
    let half = FX_ONE / 2;
    assert_eq!(fx_mul(half, half), FX_ONE / 4);
    assert_eq!(fx_mul(FX_ONE, FX_ONE), FX_ONE);
    assert_eq!(fx_mul(3 * FX_ONE, 5 * FX_ONE), 15 * FX_ONE);
}

#[test]
fn multiply_truncates_toward_zero() {
    assert_eq!(fx_mul(1, 1), 0);
    assert_eq!(fx_mul(-1, 1), 0);
    assert_eq!(fx_mul(-(FX_ONE / 2), FX_ONE / 2), -(FX_ONE / 4));
}

#[test]
fn divide_gives_truncated_thirds() {
    assert_eq!(fx_div(FX_ONE, 3 * FX_ONE), 1431655765);
    assert_eq!(fx_div(-FX_ONE, 3 * FX_ONE), -1431655765);
    assert_eq!(fx_div(6 * FX_ONE, 3 * FX_ONE), 2 * FX_ONE);
}

#[test]
fn divide_by_zero_degrades_to_zero() {
    assert_eq!(fx_div(123456, 0), 0);
    assert_eq!(fx_div(0, 0), 0);
}

#[test]
fn addition_saturates_at_the_representable_range() {
    assert_eq!(fx_add(i64::MAX, 1), i64::MAX);
    assert_eq!(fx_sub(i64::MIN, 1), i64::MIN);
    assert_eq!(fx_mul(i64::MAX, i64::MAX), i64::MAX);
    assert_eq!(fx_mul(i64::MIN, i64::MAX), i64::MIN);
    assert_eq!(fx_add(1, 2), 3);
}

#[test]
fn square_root_exact_and_rounded_values() {
    assert_eq!(fx_sqrt(4 * FX_ONE), 2 * FX_ONE);
    assert_eq!(fx_sqrt(2 * FX_ONE), 6074000999);
    assert_eq!(fx_sqrt(0), 0);
    assert_eq!(fx_sqrt(-5), 0);
}

#[test]
fn signum_and_abs_behave() {
    assert_eq!(fx_signum(42), 1);
    assert_eq!(fx_signum(-42), -1);
    assert_eq!(fx_signum(0), 0);
    assert_eq!(fx_abs(-7), 7);
    assert_eq!(fx_abs(i64::MIN), i64::MAX);
}
