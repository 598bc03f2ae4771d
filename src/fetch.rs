//! Pacing and retry decisions of the marketplace HTTP client. The requests
//! themselves are made by the caller; these types decide how long to wait,
//! how to present each request, and whether to try again.
use vstd::prelude::*;
use crate::listing::ORBITAL_BASE_URL;
use crate::text::{chars_of, contains_chars, is_infix};

verus! {

pub assume_specification<T>[ rand::random::<T> ]() -> (r: T)
    where
        rand::distributions::Standard: rand::distributions::Distribution<T>,
;

/// Fastest pace the client ever keeps between two requests.
pub const MIN_DELAY_MS: u64 = 800;

/// The base delay before a request, by the request counter modulo ten.
pub open spec fn base_delay_ms(count: nat) -> nat {
    let k = count % 10;
    if k == 0 {
        1000
    } else if k == 1 {
        1500
    } else if k == 2 {
        2000
    } else if k <= 4 {
        2500
    } else if k <= 6 {
        3000
    } else if k <= 8 {
        3500
    } else {
        4000
    }
}

/// The base delay moved by a jitter drawn from `r` uniformly over ±20%,
/// and never below `MIN_DELAY_MS`.
pub open spec fn jittered_delay(base: nat, r: nat) -> nat {
    let fifth = base / 5;
    let d = (base - fifth) + r % (2 * fifth + 1);
    if d < MIN_DELAY_MS {
        MIN_DELAY_MS as nat
    } else {
        d as nat
    }
}

pub fn base_delay(count: u64) -> (r: u64)
    ensures
        r == base_delay_ms(count as nat),
        1000 <= r <= 4000,
{
    let k = count % 10;
    if k == 0 {
        1000
    } else if k == 1 {
        1500
    } else if k == 2 {
        2000
    } else if k <= 4 {
        2500
    } else if k <= 6 {
        3000
    } else if k <= 8 {
        3500
    } else {
        4000
    }
}

pub fn jitter_delay(base: u64, r: u64) -> (d: u64)
    requires
        base <= 4000,
    ensures
        d == jittered_delay(base as nat, r as nat),
{
    let fifth = base / 5;
    let d = (base - fifth) + r % (2 * fifth + 1);
    if d < MIN_DELAY_MS {
        MIN_DELAY_MS
    } else {
        d
    }
}

/// Browser identities the client rotates through.
pub open spec fn user_agents() -> Seq<Seq<char>> {
    seq![
        "Mozilla/5.0 (Windows NT 10.0; Win64; x64) AppleWebKit/537.36 (KHTML, like Gecko) Chrome/131.0.0.0 Safari/537.36"@,
        "Mozilla/5.0 (Macintosh; Intel Mac OS X 10_15_7) AppleWebKit/537.36 (KHTML, like Gecko) Chrome/131.0.0.0 Safari/537.36"@,
        "Mozilla/5.0 (Windows NT 10.0; Win64; x64; rv:132.0) Gecko/20100101 Firefox/132.0"@,
        "Mozilla/5.0 (Macintosh; Intel Mac OS X 10.15; rv:132.0) Gecko/20100101 Firefox/132.0"@,
        "Mozilla/5.0 (Macintosh; Intel Mac OS X 10_15_7) AppleWebKit/605.1.15 (KHTML, like Gecko) Version/17.1 Safari/605.1.15"@,
    ]
}

/// One owned pacing object shared by everything that issues requests: a
/// request counter drives the delay schedule and the user-agent rotation.
pub struct RateLimiter {
    counter: u64,
}

impl RateLimiter {
    pub closed spec fn count(&self) -> nat {
        self.counter as nat
    }

    pub fn new() -> (r: RateLimiter)
        ensures
            r.count() == 0,
    {
        RateLimiter { counter: 0 }
    }

    /// The delay before the next request, in milliseconds; counts the request.
    pub fn next_delay_ms(&mut self) -> (d: u64)
        ensures
            final(self).count() == if old(self).count() == u64::MAX as nat {
                0
            } else {
                old(self).count() + 1
            },
            exists|r: nat| d == jittered_delay(base_delay_ms(old(self).count()), r),
            d >= MIN_DELAY_MS,
            base_delay_ms(old(self).count()) - base_delay_ms(old(self).count()) / 5 <= d,
            d <= base_delay_ms(old(self).count()) + base_delay_ms(old(self).count()) / 5,
    {
        let c0 = self.counter;
        let base = base_delay(self.counter);
        let r: u64 = rand::random::<u64>();
        let d = jitter_delay(base, r);
        self.counter = if self.counter == u64::MAX {
            0
        } else {
            self.counter + 1
        };
        assert(d == jittered_delay(base_delay_ms(c0 as nat), r as nat));
        assert(exists|x: nat| d == jittered_delay(base_delay_ms(c0 as nat), x));
        d
    }

    /// The user agent for the current request.
    pub fn user_agent(&self) -> (r: &'static str)
        ensures
            r@ == user_agents()[(self.count() % 5) as int],
    {
        let agents = [
            "Mozilla/5.0 (Windows NT 10.0; Win64; x64) AppleWebKit/537.36 (KHTML, like Gecko) Chrome/131.0.0.0 Safari/537.36",
            "Mozilla/5.0 (Macintosh; Intel Mac OS X 10_15_7) AppleWebKit/537.36 (KHTML, like Gecko) Chrome/131.0.0.0 Safari/537.36",
            "Mozilla/5.0 (Windows NT 10.0; Win64; x64; rv:132.0) Gecko/20100101 Firefox/132.0",
            "Mozilla/5.0 (Macintosh; Intel Mac OS X 10.15; rv:132.0) Gecko/20100101 Firefox/132.0",
            "Mozilla/5.0 (Macintosh; Intel Mac OS X 10_15_7) AppleWebKit/605.1.15 (KHTML, like Gecko) Version/17.1 Safari/605.1.15",
        ];
        let i = (self.counter % 5) as usize;
        assert(agents@.map_values(|s: &str| s@) =~= user_agents());
        assert(agents@.map_values(|s: &str| s@)[i as int] == agents@[i as int]@);
        agents[i]
    }

    /// The headers for a request to `url`, besides the user agent.
    pub fn get_browser_headers(&self, url: &str) -> (r: Vec<(String, String)>)
        ensures
            header_views(r@) == browser_headers(url@, user_agents()[(self.count() % 5) as int]),
    {
        let ua = self.user_agent();
        build_headers(url, ua)
    }
}

pub open spec fn header_views(h: Seq<(String, String)>) -> Seq<(Seq<char>, Seq<char>)> {
    h.map_values(|p: (String, String)| (p.0@, p.1@))
}

/// A request is a first visit unless it goes to the marketplace's own pages
/// other than its front page; only follow-up visits carry a `Referer`.
pub open spec fn is_first_visit(url: Seq<char>) -> bool {
    !is_infix("orbital-market.com"@, url) || url == ORBITAL_BASE_URL@
}

/// Headers that present the request as the browser family of the agent.
pub open spec fn browser_headers(url: Seq<char>, ua: Seq<char>) -> Seq<(Seq<char>, Seq<char>)> {
    let common = seq![
        ("Accept"@, "application/json, text/plain, */*"@),
        ("Accept-Language"@, "en-US,en;q=0.9"@),
        ("Cache-Control"@, "no-cache"@),
    ];
    let referer = if is_first_visit(url) {
        seq![]
    } else {
        seq![("Referer"@, ORBITAL_BASE_URL@)]
    };
    let family = if is_infix("Chrome"@, ua) {
        seq![
            ("Sec-Fetch-Dest"@, "empty"@),
            ("Sec-Fetch-Mode"@, "cors"@),
            ("Sec-Fetch-Site"@, "same-origin"@),
        ]
    } else if is_infix("Firefox"@, ua) {
        seq![("Accept-Language"@, "en-US,en;q=0.5"@), ("DNT"@, "1"@)]
    } else {
        seq![]
    };
    common + referer + family
}

fn push_header(h: &mut Vec<(String, String)>, k: &str, v: &str)
    ensures
        header_views(final(h)@) == header_views(old(h)@).push((k@, v@)),
{
    let p = (String::from_str(k), String::from_str(v));
    h.push(p);
    assert(header_views(final(h)@) =~= header_views(old(h)@).push((k@, v@)));
}

fn build_headers(url: &str, ua: &str) -> (r: Vec<(String, String)>)
    ensures
        header_views(r@) == browser_headers(url@, ua@),
{
    let u = chars_of(url);
    let site = chars_of("orbital-market.com");
    let base = String::from_str(ORBITAL_BASE_URL);
    let first_visit = !contains_chars(&u, &site) || String::from_str(url).eq(&base);
    let mut h: Vec<(String, String)> = Vec::new();
    push_header(&mut h, "Accept", "application/json, text/plain, */*");
    push_header(&mut h, "Accept-Language", "en-US,en;q=0.9");
    push_header(&mut h, "Cache-Control", "no-cache");
    let ghost common = header_views(h@);
    if !first_visit {
        push_header(&mut h, "Referer", ORBITAL_BASE_URL);
    }
    let ghost with_referer = header_views(h@);
    let a = chars_of(ua);
    if contains_chars(&a, &chars_of("Chrome")) {
        push_header(&mut h, "Sec-Fetch-Dest", "empty");
        push_header(&mut h, "Sec-Fetch-Mode", "cors");
        push_header(&mut h, "Sec-Fetch-Site", "same-origin");
    } else if contains_chars(&a, &chars_of("Firefox")) {
        push_header(&mut h, "Accept-Language", "en-US,en;q=0.5");
        push_header(&mut h, "DNT", "1");
    }
    assert(header_views(h@) =~= browser_headers(url@, ua@));
    h
}

// ---------------------------------------------------------------------------
// Retry policy
/// What one attempt at a request came back with.
#[derive(Debug, Clone)]
pub enum AttemptOutcome {
    /// A response arrived with this status and body.
    Response { status: u16, body: String },
    /// The request failed before a response arrived.
    TransportError { message: String },
}

/// Why a fetch failed for good.
#[derive(Debug, Clone)]
pub enum FetchError {
    /// A status that retrying will not change (a 4xx other than 429, or any
    /// other non-success status outside the server-error range).
    NonRetryable { status: u16 },
    /// The last of the allowed attempts got a server error or 429.
    ExhaustedStatus { attempts: u32, status: u16 },
    /// The last of the allowed attempts failed in transport.
    ExhaustedTransport { attempts: u32, message: String },
}

/// What to do after an attempt.
#[derive(Debug, Clone)]
pub enum RetryStep {
    Done(String),
    Retry,
    Fail(FetchError),
}

pub open spec fn is_success(status: u16) -> bool {
    200 <= status <= 299
}

pub open spec fn is_retryable(status: u16) -> bool {
    (500 <= status <= 599) || status == 429
}

/// The decision after attempt number `attempt` (counting from one) of at
/// most `max_attempts`.
pub open spec fn retry_decision(attempt: nat, max_attempts: nat, o: AttemptOutcome) -> RetryStep {
    match o {
        AttemptOutcome::Response { status, body } => if is_success(status) {
            RetryStep::Done(body)
        } else if is_retryable(status) {
            if attempt >= max_attempts {
                RetryStep::Fail(FetchError::ExhaustedStatus { attempts: attempt as u32, status })
            } else {
                RetryStep::Retry
            }
        } else {
            RetryStep::Fail(FetchError::NonRetryable { status })
        },
        AttemptOutcome::TransportError { message } => if attempt >= max_attempts {
            RetryStep::Fail(
                FetchError::ExhaustedTransport { attempts: attempt as u32, message },
            )
        } else {
            RetryStep::Retry
        },
    }
}

/// The retry state of one fetch: attempts made and attempts allowed.
pub struct RetryState {
    pub attempts: u32,
    pub max_attempts: u32,
}

impl RetryState {
    pub fn new(max_attempts: u32) -> (r: RetryState)
        ensures
            r.attempts == 0,
            r.max_attempts == max_attempts,
    {
        RetryState { attempts: 0, max_attempts }
    }

    /// Records an attempt's outcome and decides what comes next.
    pub fn on_outcome(&mut self, outcome: AttemptOutcome) -> (r: RetryStep)
        requires
            old(self).attempts < u32::MAX,
        ensures
            final(self).attempts == old(self).attempts + 1,
            final(self).max_attempts == old(self).max_attempts,
            r == retry_decision(final(self).attempts as nat, old(self).max_attempts as nat, outcome),
    {
        self.attempts = self.attempts + 1;
        match outcome {
            AttemptOutcome::Response { status, body } => {
                if 200 <= status && status <= 299 {
                    RetryStep::Done(body)
                } else if (500 <= status && status <= 599) || status == 429 {
                    if self.attempts >= self.max_attempts {
                        RetryStep::Fail(
                            FetchError::ExhaustedStatus { attempts: self.attempts, status },
                        )
                    } else {
                        RetryStep::Retry
                    }
                } else {
                    RetryStep::Fail(FetchError::NonRetryable { status })
                }
            },
            AttemptOutcome::TransportError { message } => {
                if self.attempts >= self.max_attempts {
                    RetryStep::Fail(
                        FetchError::ExhaustedTransport { attempts: self.attempts, message },
                    )
                } else {
                    RetryStep::Retry
                }
            },
        }
    }
}

/// Where a scripted run of attempts ends: the step taken and the number of
/// attempts made, from attempt `done + 1` on.
pub open spec fn run_attempts(os: Seq<AttemptOutcome>, max_attempts: nat, done: nat) -> (
    RetryStep,
    nat,
)
    decreases os.len() - done,
{
    if done >= os.len() {
        (RetryStep::Retry, done)
    } else {
        let step = retry_decision(done + 1, max_attempts, os[done as int]);
        match step {
            RetryStep::Retry => run_attempts(os, max_attempts, done + 1),
            _ => (step, done + 1),
        }
    }
}

pub open spec fn server_error(o: AttemptOutcome) -> bool {
    match o {
        AttemptOutcome::Response { status, .. } => is_retryable(status),
        AttemptOutcome::TransportError { .. } => true,
    }
}

/// Attempts that fail with server errors are retried until the first success,
/// whose body is returned, if it comes within the allowed attempts; when it
/// would come later, the fetch fails after exactly the allowed attempts.
pub proof fn lemma_retry_until_success(os: Seq<AttemptOutcome>, max_attempts: nat, k: nat)
    requires
        k < os.len(),
        max_attempts >= 1,
        forall|i: int| 0 <= i < k ==> server_error(#[trigger] os[i]),
        os[k as int] matches AttemptOutcome::Response { status, .. } && is_success(status),
    ensures
        k < max_attempts ==> run_attempts(os, max_attempts, 0) == (
            RetryStep::Done(os[k as int]->Response_body),
            k + 1,
        ),
        max_attempts <= k ==> run_attempts(os, max_attempts, 0).1 == max_attempts
            && run_attempts(os, max_attempts, 0).0 is Fail,
{
    lemma_run_from(os, max_attempts, k, 0);
}

proof fn lemma_run_from(os: Seq<AttemptOutcome>, max_attempts: nat, k: nat, done: nat)
    requires
        done <= k < os.len(),
        max_attempts >= 1,
        done < max_attempts || done == 0,
        forall|i: int| 0 <= i < k ==> server_error(#[trigger] os[i]),
        os[k as int] matches AttemptOutcome::Response { status, .. } && is_success(status),
    ensures
        k < max_attempts ==> run_attempts(os, max_attempts, done) == (
            RetryStep::Done(os[k as int]->Response_body),
            k + 1,
        ),
        max_attempts <= k ==> run_attempts(os, max_attempts, done).1 == max_attempts
            && run_attempts(os, max_attempts, done).0 is Fail,
    decreases k - done,
{
    if done < k {
        assert(server_error(os[done as int]));
        if done + 1 >= max_attempts {
            assert(run_attempts(os, max_attempts, done).1 == done + 1);
        } else {
            lemma_run_from(os, max_attempts, k, done + 1);
        }
    }
}

} // verus!
