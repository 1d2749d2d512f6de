use hush::ratelimit::RateLimiter;

#[test]
fn blocks_after_max_attempts_and_recovers_after_the_window() {
    let mut rl = RateLimiter::new();
    for i in 0..3 {
        assert!(rl.allow("k", 3, 1000, 100 + i), "attempt {i} should pass");
    }
    assert!(!rl.allow("k", 3, 1000, 103), "fourth attempt must be blocked");
    assert!(rl.allow("k", 3, 1000, 2000), "window elapsed, allowed again");
}

#[test]
fn keys_are_independent_and_reset_works() {
    let mut rl = RateLimiter::new();
    assert!(!rl.allow("a", 0, 1000, 0));
    assert!(rl.allow("b", 1, 1000, 0));
    assert!(!rl.allow("b", 1, 1000, 0));
    rl.reset("b");
    assert!(rl.allow("b", 1, 1000, 0));
}

#[test]
fn an_attempt_at_the_edge_of_the_window_no_longer_counts() {
    let mut rl = RateLimiter::new();
    assert!(rl.allow("k", 1, 1000, 100));
    assert!(!rl.allow("k", 1, 1000, 1099));
    assert!(rl.allow("k", 1, 1000, 1100));
}

#[test]
fn stale_keys_go_once_there_are_too_many() {
    let mut rl = RateLimiter::new();
    for i in 0..10_001u32 {
        assert!(rl.allow(&format!("key-{i}"), 1, 1000, 0));
    }
    assert_eq!(rl.hits.len(), 10_001);
    // All of them are stale by now, and one more attempt sweeps them away.
    assert!(rl.allow("fresh", 1, 1000, 5000));
    assert_eq!(rl.hits.len(), 1);
}

#[test]
fn a_key_stays_blocked_within_its_own_window_whatever_others_do() {
    let mut rl = RateLimiter::new();
    assert!(rl.allow("login:x", 1, 3_600_000, 0));
    for i in 0..10_000u32 {
        assert!(rl.allow(&format!("key-{i}"), 1, 3_600_000, 0));
    }
    // There are too many keys now, and this call has a narrower window.
    assert!(rl.allow("z", 1, 60_000, 60_000));
    assert!(!rl.allow("login:x", 1, 3_600_000, 60_000));
    assert!(rl.allow("login:x", 1, 3_600_000, 3_600_000));
}

#[test]
fn a_narrower_window_forgets_nothing() {
    let mut rl = RateLimiter::new();
    assert!(rl.allow("k", 2, 1000, 0));
    assert!(rl.allow("k", 1, 10, 500));
    assert!(!rl.allow("k", 2, 1000, 600));
    assert!(rl.allow("k", 2, 1000, 1000));
}

#[test]
fn a_run_of_attempts_keeps_to_the_budget() {
    let mut rl = RateLimiter::new();
    let mut granted: Vec<i64> = Vec::new();
    for now in 0..200i64 {
        if now == 120 {
            rl.reset("k");
            granted.clear();
        }
        assert!(rl.allow(&format!("other-{now}"), 1, 5, now));
        let within = granted.iter().filter(|at| now - **at < 30).count();
        assert_eq!(rl.allow("k", 4, 30, now), within < 4, "at {now}");
        if within < 4 {
            granted.push(now);
        }
    }
}
