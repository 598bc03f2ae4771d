use omnidex::fetch::{base_delay, jitter_delay, AttemptOutcome, FetchError, RateLimiter, RetryState, RetryStep};

fn server_error() -> AttemptOutcome {
    AttemptOutcome::Response { status: 500, body: String::new() }
}

fn ok(body: &str) -> AttemptOutcome {
    AttemptOutcome::Response { status: 200, body: body.to_string() }
}

/// Feeds the scripted outcomes until the policy stops; returns the step and the attempts made.
fn run(script: Vec<AttemptOutcome>, max_attempts: u32) -> (RetryStep, u32) {
    let mut st = RetryState::new(max_attempts);
    for o in script {
        match st.on_outcome(o) {
            RetryStep::Retry => continue,
            step => return (step, st.attempts),
        }
    }
    (RetryStep::Retry, st.attempts)
}

#[test]
fn retry_succeeds_on_third_attempt() {
    let (step, attempts) = run(vec![server_error(), server_error(), ok("third")], 3);
    assert_eq!(attempts, 3);
    match step {
        RetryStep::Done(b) => assert_eq!(b, "third"),
        other => panic!("unexpected {:?}", other),
    }
}

#[test]
fn retry_gives_up_after_max_attempts() {
    let (step, attempts) = run(vec![server_error(), server_error(), ok("third")], 2);
    assert_eq!(attempts, 2);
    match step {
        RetryStep::Fail(FetchError::ExhaustedStatus { attempts, status }) => {
            assert_eq!((attempts, status), (2, 500));
        }
        other => panic!("unexpected {:?}", other),
    }
}

#[test]
fn client_errors_are_not_retried() {
    let (step, attempts) = run(vec![AttemptOutcome::Response { status: 404, body: String::new() }, ok("x")], 5);
    assert_eq!(attempts, 1);
    assert!(matches!(step, RetryStep::Fail(FetchError::NonRetryable { status: 404 })));
    let (step, attempts) = run(vec![AttemptOutcome::Response { status: 429, body: String::new() }, ok("y")], 5);
    assert_eq!(attempts, 2);
    assert!(matches!(step, RetryStep::Done(_)));
    let (step, _) = run(vec![AttemptOutcome::TransportError { message: "reset".to_string() }], 1);
    assert!(matches!(step, RetryStep::Fail(FetchError::ExhaustedTransport { attempts: 1, .. })));
}

#[test]
fn delay_schedule() {
    let bases: Vec<u64> = (0..10).map(base_delay).collect();
    assert_eq!(bases, vec![1000, 1500, 2000, 2500, 2500, 3000, 3000, 3500, 3500, 4000]);
    assert_eq!(jitter_delay(1000, 0), 800);
    assert_eq!(jitter_delay(1000, 400), 1200);
    assert_eq!(jitter_delay(4000, 1600), 4800);
    let mut rl = RateLimiter::new();
    for _ in 0..20 {
        let d = rl.next_delay_ms();
        assert!((800..=4800).contains(&d));
    }
}

#[test]
fn headers_follow_the_agent() {
    let rl = RateLimiter::new();
    assert!(rl.user_agent().contains("Chrome"));
    let h = rl.get_browser_headers("https://orbital-market.com/api/products/product/x");
    let names: Vec<&str> = h.iter().map(|(k, _)| k.as_str()).collect();
    assert_eq!(names, vec!["Accept", "Accept-Language", "Cache-Control", "Referer", "Sec-Fetch-Dest", "Sec-Fetch-Mode", "Sec-Fetch-Site"]);
    let h = rl.get_browser_headers("https://orbital-market.com");
    assert!(h.iter().all(|(k, _)| k != "Referer"));
    let mut rl = RateLimiter::new();
    rl.next_delay_ms();
    rl.next_delay_ms();
    assert!(rl.user_agent().contains("Firefox"));
    let h = rl.get_browser_headers("https://example.com");
    let names: Vec<&str> = h.iter().map(|(k, _)| k.as_str()).collect();
    assert_eq!(names, vec!["Accept", "Accept-Language", "Cache-Control", "Accept-Language", "DNT"]);
}
