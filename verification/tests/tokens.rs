use std::time::Duration;

use threshold_bucket::{Bucket, Error};

#[test]
fn available_tokens() {
    let mut bucket = Bucket::builder()
        .refill_rate(100, Duration::from_secs(10).as_millis() as u64)
        .max(200)
        .build()
        .unwrap();

    let permit = bucket.try_permit().unwrap();
    let tokens = bucket.try_acquire(permit, 50).unwrap();
    assert_eq!(tokens, 50);
    assert_eq!(bucket.available(), 50);

    let permit = bucket.try_permit().unwrap();
    let tokens = bucket.try_acquire(permit, 50).unwrap();
    assert_eq!(tokens, 50);
    assert_eq!(bucket.available(), 0);
}

#[test]
fn exceed_tokens() {
    let mut bucket = Bucket::builder()
        .refill_rate(100, Duration::from_secs(10).as_millis() as u64)
        .max(200)
        .build()
        .unwrap();

    let permit = bucket.try_permit().unwrap();
    let tokens = bucket.try_acquire(permit, 50).unwrap();
    assert_eq!(tokens, 50);
    assert_eq!(bucket.available(), 50);

    let permit = bucket.try_permit().unwrap();
    let res = bucket.try_acquire(permit, 60);

    // Waiting time should be approx. 10 seconds (40 tokens missing, with 100 tokens/10s)
    if let Err(Error::NotEnoughTokens(Some(wait_ms))) = res {
        let wait_for = Duration::from_millis(wait_ms);
        assert!(wait_for > Duration::from_secs(9));
        assert!(wait_for < Duration::from_secs(11));
    } else {
        assert!(false, "invalid response");
    }
}

#[test]
fn exceed_threshold() {
    let mut bucket = Bucket::builder()
        .refill_rate(10, Duration::from_secs(10).as_millis() as u64)
        .threshold(100)
        .max(200)
        .build()
        .unwrap();

    let permit = bucket.try_permit().unwrap();
    let tokens = bucket.try_acquire(permit, 55).unwrap();
    assert_eq!(tokens, 55);
    assert_eq!(bucket.available(), 55);

    let res = bucket.try_permit();
    // Waiting time should be approx. 50 seconds (45 tokens missing, with 10 tokens/10s)
    if let Err(Error::NotEnoughTokens(Some(wait_ms))) = res {
        let wait_for = Duration::from_millis(wait_ms);
        assert!(wait_for > Duration::from_secs(49));
        assert!(wait_for < Duration::from_secs(51));
    } else {
        assert!(false, "invalid response");
    }
}
