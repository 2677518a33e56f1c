use certus_gateway::rate_limit::{BucketTable, TokenBucket};

#[test]
fn bucket_starts_full() {
    let b = TokenBucket::new(10_000, 0);
    assert_eq!(b.tokens, 10_000);
    assert_eq!(b.last_refill, 0);
}

#[test]
fn exhausting_the_bucket_rate_limits_the_eleventh_request() {
    // max 10 tokens (milli-token scale), refilling 1 token per second.
    let max = 10_000u64;
    let rate = 1_000u64;
    let client = String::from("10.0.0.1");
    let mut t = BucketTable::new();
    for _ in 0..10 {
        assert!(t.refill_and_check(&client, 0, max, rate));
        t.debit_client(&client, 1_000);
    }
    assert_eq!(t.lookup(&client).unwrap().tokens, 0);
    assert!(!t.refill_and_check(&client, 0, max, rate));
}

#[test]
fn five_seconds_refill_exactly_five_tokens() {
    let max = 10_000u64;
    let rate = 1_000u64;
    let mut b = TokenBucket::new(max, 0);
    b.debit(10_000);
    assert_eq!(b.tokens, 0);
    b.refill(5_000, max, rate);
    assert_eq!(b.tokens, 5_000);
    assert_eq!(b.last_refill, 5_000);
}

#[test]
fn refill_caps_at_max_tokens() {
    let mut b = TokenBucket::new(10_000, 0);
    b.debit(1_000);
    b.refill(3_600_000, 10_000, 1_000);
    assert_eq!(b.tokens, 10_000);
}

#[test]
fn debit_clamps_at_zero() {
    let mut b = TokenBucket::new(500, 0);
    b.debit(1_000);
    assert_eq!(b.tokens, 0);
}

#[test]
fn clock_moving_backwards_adds_nothing() {
    let mut b = TokenBucket::new(10_000, 9_000);
    b.debit(4_000);
    b.refill(2_000, 10_000, 1_000);
    assert_eq!(b.tokens, 6_000);
    assert_eq!(b.last_refill, 2_000);
}

#[test]
fn buckets_are_per_client() {
    let mut t = BucketTable::new();
    let a = String::from("10.0.0.1");
    let b = String::from("10.0.0.2");
    assert!(t.refill_and_check(&a, 0, 2_000, 1_000));
    t.debit_client(&a, 2_000);
    assert!(!t.refill_and_check(&a, 0, 2_000, 1_000));
    assert!(t.refill_and_check(&b, 0, 2_000, 1_000));
    assert_eq!(t.lookup(&b).unwrap().tokens, 2_000);
}
