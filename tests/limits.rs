use carescanner::dispatch::{rate_for, RateSource};
use carescanner::increase_ulimit;
use std::num::NonZeroU32;
use std::time::Instant;

#[test]
fn test_increase_ulimit() {
    let result = increase_ulimit(4096);
    assert!(result >= 1024);
    println!("Unix ulimit result: {}", result);

    let large_result = increase_ulimit(100000);
    assert!(large_result >= 1024);
}

#[test]
fn limiter_paces_acquisitions() {
    let rate = rate_for(RateSource::Global(10), 1, 20).unwrap();
    let limiter = governor::RateLimiter::direct(governor::Quota::per_second(NonZeroU32::new(rate).unwrap()));
    let n = 20u32;
    let start = Instant::now();
    for _ in 0..n {
        futures::executor::block_on(limiter.until_ready());
    }
    let elapsed = start.elapsed().as_secs_f64();
    let floor = (n - rate) as f64 / rate as f64;
    assert!(elapsed >= floor * 0.9, "{} acquisitions took {}s", n, elapsed);
}
