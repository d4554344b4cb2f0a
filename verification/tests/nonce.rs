use bitbank::decimal::decimal_string;
use bitbank::nonce::Nonce;

#[test]
fn first_draw_is_seed_plus_one() {
    let mut nonce = Nonce::from_timespec(0, 999);
    assert_eq!(nonce.next(), Some(1000));
}

#[test]
fn seed_is_seconds_times_a_billion_plus_nanoseconds() {
    let mut nonce = Nonce::from_timespec(1, 5);
    assert_eq!(nonce.next(), Some(1_000_000_006));
    let mut nonce = Nonce::from_timespec(1_500_000_000, 123_456_789);
    assert_eq!(nonce.next(), Some(1_500_000_000_123_456_790));
}

#[test]
fn seed_before_the_epoch() {
    let mut nonce = Nonce::from_timespec(-2, 800_000_000);
    assert_eq!(nonce.next(), Some(-1_199_999_999));
}

#[test]
fn draws_are_strictly_increasing() {
    let mut nonce = Nonce::from_timespec(1_500_000_000, 0);
    let mut last = 1_500_000_000_000_000_000i64;
    let mut seen = Vec::new();
    for _ in 0..1000 {
        let n = nonce.next().unwrap();
        assert!(n > last);
        assert!(!seen.contains(&n));
        seen.push(n);
        last = n;
    }
    assert_eq!(last, 1_500_000_000_000_001_000);
}

#[test]
fn draws_behind_a_lock_are_distinct_and_increasing() {
    let shared = std::sync::Mutex::new(Nonce::from_timespec(0, 0));
    let mut drawn = Vec::new();
    for _ in 0..100 {
        drawn.push(shared.lock().unwrap().next().unwrap());
    }
    for i in 1..drawn.len() {
        assert!(drawn[i - 1] < drawn[i]);
    }
}

#[test]
fn generators_with_the_same_seed_hand_out_the_same_nonces() {
    // Two generators seeded within one nanosecond collide: an account needs
    // one generator, not one per request.
    let mut first = Nonce::from_timespec(5, 5);
    let mut second = Nonce::from_timespec(5, 5);
    assert_eq!(first.next(), Some(5_000_000_006));
    assert_eq!(second.next(), Some(5_000_000_006));
}

#[test]
fn last_nonce_is_the_largest_integer() {
    let mut nonce = Nonce::from_timespec(9_223_372_036, 854_775_806);
    assert_eq!(nonce.next(), Some(i64::MAX));
    assert_eq!(nonce.next(), None);
    assert_eq!(nonce.next(), None);
}

#[test]
fn seed_at_the_largest_integer_gives_nothing() {
    let mut nonce = Nonce::from_timespec(9_223_372_036, 854_775_807);
    assert_eq!(nonce.next(), None);
}

#[test]
fn seed_beyond_the_largest_integer_gives_nothing() {
    let mut nonce = Nonce::from_timespec(i64::MAX, 999_999_999);
    assert_eq!(nonce.next(), None);
    assert_eq!(nonce.next(), None);
}

#[test]
fn first_nonce_can_be_the_smallest_integer() {
    // -9_223_372_037 s + 145_224_191 ns is one below the smallest integer.
    let mut nonce = Nonce::from_timespec(-9_223_372_037, 145_224_191);
    assert_eq!(nonce.next(), Some(i64::MIN));
    assert_eq!(nonce.next(), Some(i64::MIN + 1));
}

#[test]
fn seed_far_below_the_smallest_integer_gives_nothing() {
    let mut nonce = Nonce::from_timespec(i64::MIN, 0);
    assert_eq!(nonce.next(), None);
    assert_eq!(nonce.next(), None);
}

#[test]
fn clock_seeded_generator_counts_up_from_now() {
    let mut nonce = Nonce::new();
    let first = nonce.next().unwrap();
    let second = nonce.next().unwrap();
    // Any clock of this century reads more than 10^18 ns since the epoch.
    assert!(first > 1_000_000_000_000_000_000);
    assert_eq!(second, first + 1);
}

#[test]
fn decimal_of_small_numbers() {
    assert_eq!(decimal_string(0), "0");
    assert_eq!(decimal_string(7), "7");
    assert_eq!(decimal_string(10), "10");
    assert_eq!(decimal_string(1000), "1000");
    assert_eq!(decimal_string(-1), "-1");
    assert_eq!(decimal_string(-120), "-120");
}

#[test]
fn decimal_of_the_extremes() {
    assert_eq!(decimal_string(i64::MAX), "9223372036854775807");
    assert_eq!(decimal_string(i64::MIN), "-9223372036854775808");
}

#[test]
fn decimal_agrees_with_the_standard_library() {
    let samples = [1i64, 9, 11, 99, 100, 101, 123_456_789, 1_500_000_000_123_456_790, -42];
    for n in samples {
        assert_eq!(decimal_string(n), n.to_string());
    }
}
