use rs621::client::rate_limit::{RateLimit, Start, REQ_COOLDOWN_DURATION};

#[test]
fn cooldown_is_600_milliseconds() {
    assert_eq!(REQ_COOLDOWN_DURATION, 600);
}

#[test]
fn first_request_starts_at_once() {
    assert_eq!(RateLimit::new().lock(0), Start::Now);
    assert_eq!(RateLimit::new().lock(123_456), Start::Now);
    assert_eq!(RateLimit::default().lock(7), Start::Now);
}

#[test]
fn next_request_waits_for_the_cooldown() {
    let mut limit = RateLimit::new();
    assert_eq!(limit.lock(1000), Start::Now);
    limit.release(1250);
    assert_eq!(limit.lock(1250), Start::Wait(1850));
    assert_eq!(limit.lock(1849), Start::Wait(1850));
    assert_eq!(limit.lock(1850), Start::Now);
    assert_eq!(limit.lock(5000), Start::Now);
}

#[test]
fn lock_does_not_change_the_slot() {
    let mut limit = RateLimit::new();
    limit.release(0);
    for _ in 0..3 {
        assert_eq!(limit.lock(10), Start::Wait(600));
    }
}

#[test]
fn failed_attempts_move_the_deadline_too() {
    let mut limit = RateLimit::new();
    limit.release(100);
    limit.release(400);
    assert_eq!(limit.lock(700), Start::Wait(1000));
    assert_eq!(limit.lock(1000), Start::Now);
}

#[test]
fn starts_of_many_callers_are_spaced() {
    // Callers arrive at these instants; each is served in turn and its request takes a
    // while. A caller that is told to wait sleeps until the deadline and asks again.
    let arrivals: [u64; 8] = [0, 0, 0, 10, 700, 5000, 5001, 5001];
    let lasting: [u64; 8] = [30, 0, 250, 1, 900, 0, 10, 10];
    let mut limit = RateLimit::new();
    let mut clock: u64 = 0;
    let mut starts: Vec<u64> = Vec::new();
    for i in 0..arrivals.len() {
        clock = clock.max(arrivals[i]);
        loop {
            match limit.lock(clock) {
                Start::Now => break,
                Start::Wait(until) => {
                    assert!(until > clock);
                    clock = until;
                }
            }
        }
        starts.push(clock);
        clock += lasting[i];
        limit.release(clock);
    }
    assert_eq!(starts.len(), 8);
    for pair in starts.windows(2) {
        assert!(pair[1] - pair[0] >= REQ_COOLDOWN_DURATION, "{:?}", starts);
    }
    assert_eq!(starts, vec![0, 630, 1230, 2080, 2681, 5000, 5600, 6210]);
}
