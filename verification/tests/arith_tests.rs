use cpu_gauges::arith::{clamp_i128, isqrt, quot_i128, rest_i128};

#[test]
fn isqrt_rounds_down() {
    assert_eq!(isqrt(0), 0);
    assert_eq!(isqrt(1), 1);
    assert_eq!(isqrt(3), 1);
    assert_eq!(isqrt(4), 2);
    assert_eq!(isqrt(24), 4);
    assert_eq!(isqrt(25), 5);
    assert_eq!(isqrt(166_166_278_221), 407_634);
    assert_eq!(isqrt(1_000_000_000_000_000_000_000), 31_622_776_601);
    assert_eq!(isqrt(u128::MAX), 18_446_744_073_709_551_615);
}

#[test]
fn quotients_round_toward_zero() {
    assert_eq!(quot_i128(7, 2), 3);
    assert_eq!(quot_i128(-7, 2), -3);
    assert_eq!(quot_i128(-1, 1_000_000), 0);
    assert_eq!(quot_i128(0, 5), 0);
    assert_eq!(quot_i128(i128::MAX, 1), i128::MAX);
}

#[test]
fn clamp_saturates_both_ways() {
    assert_eq!(clamp_i128(5, 10), 5);
    assert_eq!(clamp_i128(11, 10), 10);
    assert_eq!(clamp_i128(-11, 10), -10);
    assert_eq!(clamp_i128(i128::MAX, i64::MAX), i64::MAX);
    assert_eq!(clamp_i128(i128::MIN, i64::MAX), -i64::MAX);
    assert_eq!(clamp_i128(3, 0), 0);
}

#[test]
fn what_is_left_has_the_sign_of_the_dividend() {
    assert_eq!(rest_i128(7, 2), 1);
    assert_eq!(rest_i128(-7, 2), -1);
    assert_eq!(rest_i128(6, 3), 0);
    assert_eq!(rest_i128(-1, 1_000_000), -1);
    assert_eq!(rest_i128(1_999_999, 1_000_000), 999_999);
    assert_eq!(rest_i128(i128::MIN, 1), 0);
    assert_eq!(rest_i128(i128::MIN, i128::MAX), -1);
    for a in [-25i128, -3, 0, 4, 99] {
        assert_eq!(quot_i128(a, 7) * 7 + rest_i128(a, 7), a);
    }
}
