use sci_calc::common::{fibonacci, gcd, is_prime, to_title_case};

#[test]
fn test_gcd() {
    assert_eq!(gcd(48, 18), 6);
    assert_eq!(gcd(100, 50), 50);
    assert_eq!(gcd(17, 13), 1);
}

#[test]
fn gcd_with_zero() {
    assert_eq!(gcd(0, 0), 0);
    assert_eq!(gcd(0, 7), 7);
    assert_eq!(gcd(9, 0), 9);
    assert_eq!(gcd(u32::MAX, u32::MAX - 1), 1);
}

#[test]
fn test_is_prime() {
    assert!(!is_prime(0));
    assert!(!is_prime(1));
    assert!(is_prime(2));
    assert!(is_prime(3));
    assert!(!is_prime(4));
    assert!(is_prime(17));
    assert!(!is_prime(100));
}

#[test]
fn is_prime_large() {
    assert!(is_prime(4294967291));
    assert!(!is_prime(4294967295));
    assert!(!is_prime(65537 * 65521));
    assert!(!is_prime(25));
}

#[test]
fn test_fibonacci() {
    assert_eq!(fibonacci(0), 0);
    assert_eq!(fibonacci(1), 1);
    assert_eq!(fibonacci(5), 5);
    assert_eq!(fibonacci(10), 55);
}

#[test]
fn fibonacci_largest() {
    assert_eq!(fibonacci(93), 12200160415121876738);
    assert_eq!(fibonacci(2), 1);
}

#[test]
fn test_to_title_case() {
    assert_eq!(to_title_case("hello world"), "Hello World");
    assert_eq!(to_title_case("rust programming"), "Rust Programming");
}

#[test]
fn title_case_collapses_white_space() {
    assert_eq!(to_title_case("  hello \t  world  "), "Hello World");
    assert_eq!(to_title_case(""), "");
    assert_eq!(to_title_case("   "), "");
    assert_eq!(to_title_case("ÿes émile"), "Ÿes Émile");
    assert_eq!(to_title_case("ß"), "SS");
}
