use shared_tree::gcd::gcd;

#[test]
fn gcd_of_known_pairs() {
    assert_eq!(gcd(1, 100), 1);
    assert_eq!(gcd(12, 18), 6);
    assert_eq!(gcd(18, 12), 6);
    assert_eq!(gcd(17, 5), 1);
    assert_eq!(gcd(1071, 462), 21);
    assert_eq!(gcd(u64::MAX, u64::MAX), u64::MAX);
}

#[test]
fn gcd_with_zero() {
    assert_eq!(gcd(0, 0), 0);
    assert_eq!(gcd(0, 9), 9);
    assert_eq!(gcd(9, 0), 9);
}

#[test]
fn gcd_divides_both_and_is_the_greatest() {
    for a in 1..40u64 {
        for b in 1..40u64 {
            let g = gcd(a, b);
            assert_eq!(a % g, 0);
            assert_eq!(b % g, 0);
            for d in (g + 1)..=a.min(b) {
                assert!(a % d != 0 || b % d != 0);
            }
        }
    }
}
