use smtp_honeypot::handler::admit_connection;
use smtp_honeypot::ratelimiter::RateLimiter;

#[test]
fn eleventh_rapid_connection_is_rejected() {
    let mut rl = RateLimiter::new(10);
    let addr: u64 = 0x0102_0304;
    for k in 0..10u64 {
        assert!(rl.check_and_add(addr, 1000 + k), "connection {} should be admitted", k);
    }
    assert!(!rl.check_and_add(addr, 1010));
}

#[test]
fn rejection_carries_the_421_line() {
    let mut rl = RateLimiter::new(10);
    let addr: u64 = 77;
    for k in 0..10u64 {
        assert!(admit_connection(&mut rl, addr, 500 + k).is_none());
    }
    let reply = admit_connection(&mut rl, addr, 510);
    assert_eq!(
        reply.as_deref(),
        Some("421 Too many connections from your IP\r\n")
    );
}

#[test]
fn other_addresses_are_not_affected() {
    let mut rl = RateLimiter::new(2);
    assert!(rl.check_and_add(1, 10));
    assert!(rl.check_and_add(1, 11));
    assert!(!rl.check_and_add(1, 12));
    assert!(rl.check_and_add(2, 13));
}

#[test]
fn aging_past_the_window_frees_one_slot() {
    let mut rl = RateLimiter::new(2);
    assert!(rl.check_and_add(9, 0));
    assert!(rl.check_and_add(9, 50000));
    assert!(!rl.check_and_add(9, 50001));
    // at 60000 the first timestamp is still inside the window
    assert!(!rl.check_and_add(9, 60000));
    // one millisecond later it has aged out and one slot is free again
    assert!(rl.check_and_add(9, 60001));
    // both remaining timestamps (50000 and 60001) are live: cap holds
    assert!(!rl.check_and_add(9, 60002));
}

#[test]
fn rejected_checks_are_not_recorded() {
    let mut rl = RateLimiter::new(1);
    assert!(rl.check_and_add(4, 100));
    assert!(!rl.check_and_add(4, 200));
    // the rejected attempt at 200 left no trace: once 100 ages out the
    // window is empty again
    assert!(rl.check_and_add(4, 60101));
}

#[test]
fn zero_cap_rejects_everything() {
    let mut rl = RateLimiter::new(0);
    assert!(!rl.check_and_add(5, 1));
    assert!(!rl.check_and_add(5, 99999));
}
