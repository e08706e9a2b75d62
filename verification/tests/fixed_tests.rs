use softpipe::fixed::isqrt;

#[test]
fn isqrt_small_values() {
    assert_eq!(isqrt(0), 0);
    assert_eq!(isqrt(1), 1);
    assert_eq!(isqrt(2), 1);
    assert_eq!(isqrt(3), 1);
    assert_eq!(isqrt(4), 2);
    assert_eq!(isqrt(15), 3);
    assert_eq!(isqrt(16), 4);
    assert_eq!(isqrt(17), 4);
}

#[test]
fn isqrt_perfect_squares() {
    assert_eq!(isqrt(1 << 52), 1 << 26);
    assert_eq!(isqrt(1 << 100), 1 << 50);
    assert_eq!(isqrt(999_999_999_999 * 999_999_999_999), 999_999_999_999);
}

#[test]
fn isqrt_rounds_down() {
    assert_eq!(isqrt((1 << 100) - 1), (1 << 50) - 1);
    assert_eq!(isqrt(u64::MAX as u128), 4294967295);
    assert_eq!(isqrt(u128::MAX), u64::MAX);
}
