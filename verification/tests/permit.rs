use std::time::Duration;

use threshold_bucket::{Bucket, Error};

#[test]
fn valid_permit() {
    let mut bucket = Bucket::builder()
        .refill_rate(10, Duration::from_secs(10).as_millis() as u64)
        .threshold(100)
        .max(200)
        .build()
        .unwrap();

    let permit = bucket.try_permit().unwrap();
    let tokens = bucket.try_acquire(permit, 50).unwrap();
    assert_eq!(tokens, 50);
    assert_eq!(bucket.available(), 60);
}

#[test]
fn invalid_permit() {
    let mut bucket = Bucket::builder()
        .refill_rate(10, Duration::from_secs(10).as_millis() as u64)
        .threshold(100)
        .max(200)
        .build()
        .unwrap();

    let other_bucket = Bucket::builder()
        .refill_rate(10, Duration::from_secs(10).as_millis() as u64)
        .threshold(100)
        .max(200)
        .build()
        .unwrap();

    let permit = other_bucket.try_permit().unwrap();

    let res = bucket.try_acquire(permit, 50);

    assert!(matches!(res, Err(Error::InvalidPermit)));
}
