use rust_iss::limiter::RateLimiter;

#[test]
fn six_requests_in_one_second_yield_one_rejection() {
    let mut gate = RateLimiter::new(5, 1000);
    let mut rejected = 0;
    for k in 0..6u64 {
        if !gate.accept(100 * k) {
            rejected += 1;
        }
    }
    assert_eq!(rejected, 1);
}

#[test]
fn five_requests_in_one_second_yield_no_rejection() {
    let mut gate = RateLimiter::new(5, 1000);
    let mut rejected = 0;
    for k in 0..5u64 {
        if !gate.accept(100 * k) {
            rejected += 1;
        }
    }
    assert_eq!(rejected, 0);
}

#[test]
fn new_window_refills_the_gate() {
    let mut gate = RateLimiter::new(2, 1000);
    assert!(gate.accept(0));
    assert!(gate.accept(1));
    assert!(!gate.accept(2));
    // a full window later, requests are accepted again
    assert!(gate.accept(1000));
    assert!(gate.accept(1001));
    assert!(!gate.accept(1002));
}

#[test]
fn rejected_requests_consume_nothing() {
    let mut gate = RateLimiter::new(1, 1000);
    assert!(gate.accept(0));
    for t in 1..50u64 {
        assert!(!gate.accept(t));
    }
    // still exactly one admission in the next window
    assert!(gate.accept(1000));
    assert!(!gate.accept(1001));
}

#[test]
fn zero_limit_rejects_everything() {
    let mut gate = RateLimiter::new(0, 1000);
    assert!(!gate.accept(0));
    assert!(!gate.accept(5000));
}
