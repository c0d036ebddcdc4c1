use std::time::{Duration, Instant};

use threshold_bucket::{Bucket, BuildError, Error, RateConfig};

#[test]
fn build_missing_refill() {
    let res = Bucket::builder().max(10).build();
    assert!(matches!(res, Err(BuildError::MissingRefill)));
}

#[test]
fn build_missing_max() {
    let res = Bucket::builder().refill_rate(5, 1000).build();
    assert!(matches!(res, Err(BuildError::MissingMax)));
}

#[test]
fn rate_config_sets_all() {
    let bucket = Bucket::builder()
        .rate(RateConfig { quantity: 5, interval_ms: 1000, max: 50 })
        .initial(20)
        .build()
        .unwrap();
    assert_eq!(bucket.available(), 20);
    assert_eq!(bucket.max(), 50);
    assert_eq!(bucket.threshold(), None);
}

#[test]
fn initial_capped_at_max() {
    let bucket = Bucket::builder()
        .refill_rate(5, 1000)
        .max(200)
        .initial(500)
        .build()
        .unwrap();
    assert_eq!(bucket.available(), 200);
}

#[test]
fn threshold_seed_starts_usable() {
    let bucket = Bucket::builder()
        .refill_rate(10, 10_000)
        .threshold(100)
        .max(200)
        .build()
        .unwrap();
    assert_eq!(bucket.available(), 110);
    assert_eq!(bucket.threshold(), Some(100));
    assert_eq!(bucket.max(), 200);
}

#[test]
fn no_threshold_starting_full() {
    let mut bucket = Bucket::builder()
        .refill_rate(100, 10_000)
        .max(200)
        .initial(200)
        .build()
        .unwrap();
    let permit = bucket.try_permit().unwrap();
    assert_eq!(bucket.try_acquire(permit, 50).unwrap(), 50);
    assert_eq!(bucket.available(), 150);
}

#[test]
fn boundary_exact_drains_to_zero() {
    let mut bucket = Bucket::builder()
        .refill_rate(1, 60_000)
        .max(100)
        .initial(40)
        .build()
        .unwrap();
    let permit = bucket.try_permit().unwrap();
    assert_eq!(bucket.try_acquire(permit, 40).unwrap(), 40);
    assert_eq!(bucket.available(), 0);
}

#[test]
fn boundary_one_over_leaves_count() {
    let mut bucket = Bucket::builder()
        .refill_rate(1, 60_000)
        .max(100)
        .initial(40)
        .build()
        .unwrap();
    let permit = bucket.try_permit().unwrap();
    let res = bucket.try_acquire(permit, 41);
    assert!(matches!(res, Err(Error::NotEnoughTokens(Some(_)))));
    assert_eq!(bucket.available(), 40);
}

#[test]
fn sequential_acquires_sum() {
    let mut bucket = Bucket::builder()
        .refill_rate(1, 60_000)
        .max(100)
        .initial(90)
        .build()
        .unwrap();
    let mut deducted: u64 = 0;
    for n in [30u64, 40, 20] {
        let permit = bucket.get_permit().unwrap();
        deducted += bucket.try_acquire(permit, n).unwrap();
    }
    assert_eq!(deducted, 90);
    assert_eq!(bucket.available(), 0);
}

#[test]
fn exact_refill_after_whole_intervals() {
    let start = Instant::now();
    let mut bucket = Bucket::builder()
        .refill_rate(3, 1000)
        .max(100)
        .initial(0)
        .build()
        .unwrap();
    // Spin until two whole intervals have certainly passed (and the third
    // certainly has not): two refills of 3 tokens each are then due at once.
    while start.elapsed() < Duration::from_millis(2200) {}
    let permit = bucket.get_permit().unwrap();
    assert_eq!(bucket.try_acquire(permit, 1).unwrap(), 1);
    assert_eq!(bucket.available(), 5);
}

#[test]
fn permit_refused_below_threshold() {
    let bucket = Bucket::builder()
        .refill_rate(10, 10_000)
        .threshold(100)
        .max(200)
        .initial(50)
        .build()
        .unwrap();
    assert!(bucket.get_permit().is_none());
    assert!(matches!(bucket.try_permit(), Err(Error::NotEnoughTokens(Some(_)))));
}

#[test]
fn acquire_one() {
    let mut bucket = Bucket::builder()
        .refill_rate(10, 10_000)
        .max(200)
        .initial(10)
        .build()
        .unwrap();
    let permit = bucket.get_permit().unwrap();
    bucket.try_acquire_one(permit).unwrap();
    assert_eq!(bucket.available(), 9);
}

#[test]
fn wait_estimate_exact() {
    let mut bucket = Bucket::builder()
        .refill_rate(10, 10_000)
        .max(200)
        .initial(5)
        .build()
        .unwrap();
    let permit = bucket.get_permit().unwrap();
    let res = bucket.try_acquire(permit, 47);
    // A shortfall of 42 at 10 tokens per interval: the estimate counts the
    // boundary at 10 s plus four further whole intervals.
    match res {
        Err(Error::NotEnoughTokens(Some(wait_ms))) => assert_eq!(wait_ms, 50_000),
        _ => panic!("expected a wait estimate"),
    }
}
