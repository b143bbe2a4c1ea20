use pong::intmath::{isqrt, mul_div};

#[test]
fn isqrt_exact_values() {
    assert_eq!(isqrt(0), 0);
    assert_eq!(isqrt(1), 1);
    assert_eq!(isqrt(15), 3);
    assert_eq!(isqrt(16), 4);
    assert_eq!(isqrt(499_849), 707);
    assert_eq!(isqrt(500_000), 707);
    assert_eq!(isqrt(16_000_000), 4_000);
}

#[test]
fn mul_div_truncates_toward_zero() {
    assert_eq!(mul_div(-40_000, 250, 1000), -10_000);
    assert_eq!(mul_div(40_000, 250, 1000), 10_000);
    assert_eq!(mul_div(-1, 1, 2), 0);
    assert_eq!(mul_div(-3, 1, 2), -1);
    assert_eq!(mul_div(500, 40_000, 707), 28_288);
}
