//! Decisions around page requests: which statuses are retried, how long to wait between
//! attempts, when to give up, and which browser identity each request presents.

use vstd::prelude::*;
use rand::Rng;
use crate::text::{all_digits, digits_value, parse_u64, parse_u64_seq};
use crate::rate_limit::wait_spec;
use crate::urls::{referer_for, referer_spec, spec_url_host};

verus! {

/// `rand::thread_rng().gen_range(0..n)`: a random number below `n`. Only the range is
/// claimed; which number comes is chance.
#[verifier::external_body]
pub(crate) fn random_below(n: u64) -> (r: u64)
    requires
        n > 0,
    ensures
        r < n,
{
    rand::thread_rng().gen_range(0..n)
}

/// `a * b`, or `u64::MAX` when the product does not fit.
pub fn saturating_mul(a: u64, b: u64) -> (r: u64)
    ensures
        r == (if a * b <= u64::MAX {
            (a * b) as u64
        } else {
            u64::MAX
        }),
{
    match a.checked_mul(b) {
        Some(x) => x,
        None => u64::MAX,
    }
}

/// Statuses worth retrying: 429 Too Many Requests and the server errors 500, 502, 503, 504.
pub open spec fn retryable(status: u16) -> bool {
    status == 429 || status == 500 || status == 502 || status == 503 || status == 504
}

/// Whether a response status is worth retrying.
pub fn is_retryable(status: u16) -> (r: bool)
    ensures
        r == retryable(status),
{
    status == 429 || status == 500 || status == 502 || status == 503 || status == 504
}

/// Whether a response status is worth retrying; the same test as [`is_retryable`].
pub fn is_retryable_status(status: u16) -> (r: bool)
    ensures
        r == retryable(status),
{
    is_retryable(status)
}

/// A 2xx status, as `StatusCode::is_success` tells it.
pub open spec fn success_status(status: u16) -> bool {
    200 <= status <= 299
}

/// A 4xx status, as `StatusCode::is_client_error` tells it.
pub open spec fn client_error_status(status: u16) -> bool {
    400 <= status <= 499
}

/// How a fetch retries.
#[derive(Clone, Copy)]
pub struct RetryPolicy {
    /// Requests after the first one.
    pub max_retries: u32,
    /// The wait after the first failed attempt, in milliseconds; it doubles each attempt.
    pub base_backoff_ms: u64,
    /// The longest wait between attempts, in milliseconds, before jitter.
    pub max_backoff_ms: u64,
    /// Whether up to a tenth of the wait is added at random.
    pub jitter: bool,
}

impl RetryPolicy {
    /// A policy whose waits fit in a `u64` with their jitter, and whose jitter, when it has
    /// any, can be drawn.
    pub open spec fn wf(&self) -> bool {
        &&& self.max_backoff_ms <= u64::MAX / 2
        &&& self.jitter ==> self.base_backoff_ms >= 10 && self.max_backoff_ms >= 10
    }
}

/// The crawler's policy: two retries, waits of 1 s doubling up to 30 s, no jitter.
pub fn crawler_retry_policy() -> (r: RetryPolicy)
    ensures
        r.wf(),
        r.max_retries == 2,
        r.base_backoff_ms == 1000,
        r.max_backoff_ms == 30000,
        !r.jitter,
{
    RetryPolicy { max_retries: 2, base_backoff_ms: 1000, max_backoff_ms: 30000, jitter: false }
}

/// The scraper's policy: three retries, waits of 1 s doubling up to 30 s, plus up to a
/// tenth at random.
pub fn scraper_retry_policy() -> (r: RetryPolicy)
    ensures
        r.wf(),
        r.max_retries == 3,
        r.base_backoff_ms == 1000,
        r.max_backoff_ms == 30000,
        r.jitter,
{
    RetryPolicy { max_retries: 3, base_backoff_ms: 1000, max_backoff_ms: 30000, jitter: true }
}

/// `base` doubled `times` times.
pub open spec fn doubled(base: nat, times: nat) -> nat
    decreases times,
{
    if times == 0 {
        base
    } else {
        2 * doubled(base, (times - 1) as nat)
    }
}

/// The wait before the attempt after `attempt` fails: the base wait doubled once per
/// attempt so far, at most the policy's maximum.
pub open spec fn backoff_spec(policy: RetryPolicy, attempt: nat) -> nat {
    let d = doubled(policy.base_backoff_ms as nat, attempt);
    if d <= policy.max_backoff_ms {
        d
    } else {
        policy.max_backoff_ms as nat
    }
}

/// The wait, in milliseconds, after attempt number `attempt` (counted from 0) fails.
pub fn backoff_ms(policy: &RetryPolicy, attempt: u32) -> (r: u64)
    ensures
        r == backoff_spec(*policy, attempt as nat),
{
    let mut d: u64 = policy.base_backoff_ms;
    let mut i: u32 = 0;
    while i < attempt
        invariant
            i <= attempt,
            d == (if doubled(policy.base_backoff_ms as nat, i as nat) <= u64::MAX {
                doubled(policy.base_backoff_ms as nat, i as nat)
            } else {
                u64::MAX as nat
            }),
        decreases attempt - i,
    {
        d = saturating_mul(d, 2);
        i = i + 1;
    }
    if d <= policy.max_backoff_ms {
        d
    } else {
        policy.max_backoff_ms
    }
}

/// The delay before the next sitemap request: the remaining wait plus `extra_ms` of jitter.
pub fn jitter_delay(base_ms: u64, extra_ms: u64) -> (r: u64)
    requires
        extra_ms <= 1000,
        base_ms + extra_ms <= u64::MAX,
    ensures
        r == base_ms + extra_ms,
{
    base_ms + extra_ms
}

/// The delay before the next sitemap request: the remaining wait plus up to one second
/// drawn at random.
pub fn random_jitter_delay(base_ms: u64) -> (r: u64)
    requires
        base_ms + 1000 <= u64::MAX,
    ensures
        base_ms <= r <= base_ms + 1000,
{
    let extra = random_below(1001);
    jitter_delay(base_ms, extra)
}

/// The seconds to wait after a 429, from its `Retry-After` header: the number it holds,
/// or five when it is missing or not a number.
pub open spec fn retry_after_spec(header: Option<Seq<char>>) -> u64 {
    match header {
        Some(h) => match parse_u64_seq(h) {
            Some(v) => v,
            None => 5,
        },
        None => 5,
    }
}

/// The seconds to wait after a 429 answer with this `Retry-After` header.
pub fn retry_after_secs(header: &Option<String>) -> (r: u64)
    ensures
        r == retry_after_spec(header.deep_view()),
{
    match header {
        Some(h) => match parse_u64(h.as_str()) {
            Some(v) => v,
            None => 5,
        },
        None => 5,
    }
}

/// The `Referer` sent with every request for the page at `url`: `https://`, the page's
/// host and `/`. A page whose URL does not parse is refused with `InvalidUrl` before any
/// request is sent.
pub fn page_referer(url: &str) -> (r: Result<String, FetchError>)
    ensures
        match referer_spec(spec_url_host(url@)) {
            Some(h) => r matches Ok(s) && s@ == h,
            None => r matches Err(FetchError::InvalidUrl),
        },
{
    match referer_for(url) {
        Some(s) => Ok(s),
        None => Err(FetchError::InvalidUrl),
    }
}

/// What one request gave.
pub enum FetchOutcome {
    /// An answer with this status and, for a 429, its `Retry-After` header.
    Status { code: u16, retry_after: Option<String> },
    /// No answer: connection, TLS or timeout failure.
    Transport,
}

/// Why a fetch failed.
#[derive(Clone, Copy, Debug, PartialEq, Eq)]
pub enum FetchError {
    /// The last answer had this status.
    Http(u16),
    /// The last request got no answer.
    Transport,
    /// The URL does not parse.
    InvalidUrl,
}

/// What to do after a request.
pub enum FetchAction {
    /// Read the body: the answer is a success.
    Deliver,
    /// Stop with this error.
    Fail(FetchError),
    /// Wait this many milliseconds, then send the next request.
    Retry { wait_ms: u64 },
    /// Wait this many milliseconds, then stop with this error.
    WaitThenFail { wait_ms: u64, error: FetchError },
}

/// The progress of one fetch.
pub struct FetchRetry {
    /// How the fetch retries.
    pub policy: RetryPolicy,
    /// The number of the request last sent, counted from 0.
    pub attempt: u32,
    /// Why the last failed request failed.
    pub last_error: Option<FetchError>,
}

/// The decision after a request, given its outcome and, for waits with jitter, the extra
/// milliseconds drawn: successes are delivered; 4xx answers other than 429 fail at once;
/// a 429 waits what its header asks (in milliseconds, saturating) and is retried while
/// retries remain; other failures wait the backoff (plus jitter) while retries remain and
/// fail with the last error when none remain.
pub open spec fn fetch_decision(
    policy: RetryPolicy,
    attempt: u32,
    outcome: FetchOutcome,
    jitter_ms: u64,
) -> (FetchAction, Option<FetchError>) {
    let more = attempt < policy.max_retries;
    let backoff = backoff_spec(policy, attempt as nat) + if policy.jitter {
        jitter_ms as nat
    } else {
        0
    };
    match outcome {
        FetchOutcome::Status { code, retry_after } => {
            if success_status(code) {
                (FetchAction::Deliver, None)
            } else if code == 429 {
                let secs = retry_after_spec(retry_after.deep_view());
                let wait = if secs * 1000 <= u64::MAX {
                    (secs * 1000) as u64
                } else {
                    u64::MAX
                };
                if more {
                    (FetchAction::Retry { wait_ms: wait }, Some(FetchError::Http(429)))
                } else {
                    (
                        FetchAction::WaitThenFail { wait_ms: wait, error: FetchError::Http(429) },
                        Some(FetchError::Http(429)),
                    )
                }
            } else if client_error_status(code) && !retryable(code) {
                (FetchAction::Fail(FetchError::Http(code)), Some(FetchError::Http(code)))
            } else if more {
                (FetchAction::Retry { wait_ms: backoff as u64 }, Some(FetchError::Http(code)))
            } else {
                (FetchAction::Fail(FetchError::Http(code)), Some(FetchError::Http(code)))
            }
        },
        FetchOutcome::Transport => {
            if more {
                (FetchAction::Retry { wait_ms: backoff as u64 }, Some(FetchError::Transport))
            } else {
                (FetchAction::Fail(FetchError::Transport), Some(FetchError::Transport))
            }
        },
    }
}

impl FetchRetry {
    /// The progress invariant: no more requests than the policy allows.
    pub open spec fn wf(&self) -> bool {
        self.policy.wf() && self.attempt <= self.policy.max_retries
    }

    /// A fetch before its first request.
    pub fn new(policy: RetryPolicy) -> (r: FetchRetry)
        requires
            policy.wf(),
        ensures
            r.wf(),
            r.policy == policy,
            r.attempt == 0,
            r.last_error is None,
    {
        FetchRetry { policy, attempt: 0, last_error: None }
    }

    /// The upper bound, exclusive, of the jitter drawn after the current attempt.
    pub fn jitter_bound(&self) -> (r: u64)
        requires
            self.wf(),
        ensures
            r == backoff_spec(self.policy, self.attempt as nat) / 10,
            self.policy.jitter ==> r > 0,
    {
        let b = backoff_ms(&self.policy, self.attempt);
        proof {
            lemma_backoff_at_least_base(self.policy, self.attempt as nat);
        }
        b / 10
    }

    /// Decides what follows a request with this outcome, `jitter_ms` being the jitter drawn.
    pub fn step(&mut self, outcome: &FetchOutcome, jitter_ms: u64) -> (a: FetchAction)
        requires
            old(self).wf(),
            jitter_ms < backoff_spec(old(self).policy, old(self).attempt as nat) / 10 + 1,
        ensures
            final(self).wf(),
            final(self).policy == old(self).policy,
            (a, final(self).last_error) == (fetch_decision(
                old(self).policy,
                old(self).attempt,
                *outcome,
                jitter_ms,
            ).0, match fetch_decision(old(self).policy, old(self).attempt, *outcome, jitter_ms).1 {
                Some(e) => Some(e),
                None => old(self).last_error,
            }),
            a is Retry ==> final(self).attempt == old(self).attempt + 1,
            !(a is Retry) ==> final(self).attempt == old(self).attempt,
    {
        let more = self.attempt < self.policy.max_retries;
        let b = backoff_ms(&self.policy, self.attempt);
        proof {
            lemma_backoff_at_most_max(self.policy, self.attempt as nat);
        }
        let backoff = if self.policy.jitter {
            b + jitter_ms
        } else {
            b
        };
        match outcome {
            FetchOutcome::Status { code, retry_after } => {
                let code = *code;
                if 200 <= code && code <= 299 {
                    FetchAction::Deliver
                } else if code == 429 {
                    let secs = retry_after_secs(retry_after);
                    let wait = saturating_mul(secs, 1000);
                    self.last_error = Some(FetchError::Http(429));
                    if more {
                        self.attempt = self.attempt + 1;
                        FetchAction::Retry { wait_ms: wait }
                    } else {
                        FetchAction::WaitThenFail { wait_ms: wait, error: FetchError::Http(429) }
                    }
                } else if 400 <= code && code <= 499 && !is_retryable(code) {
                    self.last_error = Some(FetchError::Http(code));
                    FetchAction::Fail(FetchError::Http(code))
                } else {
                    self.last_error = Some(FetchError::Http(code));
                    if more {
                        self.attempt = self.attempt + 1;
                        FetchAction::Retry { wait_ms: backoff }
                    } else {
                        FetchAction::Fail(FetchError::Http(code))
                    }
                }
            },
            FetchOutcome::Transport => {
                self.last_error = Some(FetchError::Transport);
                if more {
                    self.attempt = self.attempt + 1;
                    FetchAction::Retry { wait_ms: backoff }
                } else {
                    FetchAction::Fail(FetchError::Transport)
                }
            },
        }
    }

    /// Decides what follows a request with this outcome, drawing the jitter at random.
    pub fn step_random(&mut self, outcome: &FetchOutcome) -> (a: FetchAction)
        requires
            old(self).wf(),
        ensures
            final(self).wf(),
            final(self).policy == old(self).policy,
            exists|j: u64|
                j < backoff_spec(old(self).policy, old(self).attempt as nat) / 10 + 1 && (
                a,
                final(self).last_error,
            ) == (fetch_decision(old(self).policy, old(self).attempt, *outcome, j).0,
                match fetch_decision(old(self).policy, old(self).attempt, *outcome, j).1 {
                    Some(e) => Some(e),
                    None => old(self).last_error,
                }),
            a is Retry ==> final(self).attempt == old(self).attempt + 1,
            !(a is Retry) ==> final(self).attempt == old(self).attempt,
    {
        let j = if self.policy.jitter {
            let bound = self.jitter_bound();
            random_below(bound)
        } else {
            0
        };
        self.step(outcome, j)
    }
}

proof fn lemma_doubled_monotone(base: nat, times: nat)
    ensures
        doubled(base, times) >= base,
    decreases times,
{
    if times > 0 {
        lemma_doubled_monotone(base, (times - 1) as nat);
    }
}

proof fn lemma_backoff_at_least_base(policy: RetryPolicy, attempt: nat)
    requires
        policy.wf(),
    ensures
        policy.jitter ==> backoff_spec(policy, attempt) >= 10,
{
    lemma_doubled_monotone(policy.base_backoff_ms as nat, attempt);
}

proof fn lemma_backoff_at_most_max(policy: RetryPolicy, attempt: nat)
    ensures
        backoff_spec(policy, attempt) <= policy.max_backoff_ms,
{
}

/// The browser identities presented in turn.
pub open spec fn user_agent_spec(i: int) -> Seq<char> {
    if i == 0 {
        "Mozilla/5.0 (Windows NT 10.0; Win64; x64) AppleWebKit/537.36 (KHTML, like Gecko) Chrome/125.0.0.0 Safari/537.36"@
    } else if i == 1 {
        "Mozilla/5.0 (Windows NT 10.0; Win64; x64) AppleWebKit/537.36 (KHTML, like Gecko) Chrome/126.0.0.0 Safari/537.36"@
    } else if i == 2 {
        "Mozilla/5.0 (Macintosh; Intel Mac OS X 10_15_7) AppleWebKit/537.36 (KHTML, like Gecko) Chrome/125.0.0.0 Safari/537.36"@
    } else if i == 3 {
        "Mozilla/5.0 (Macintosh; Intel Mac OS X 10_15_7) AppleWebKit/537.36 (KHTML, like Gecko) Chrome/126.0.0.0 Safari/537.36"@
    } else {
        "Mozilla/5.0 (X11; Linux x86_64) AppleWebKit/537.36 (KHTML, like Gecko) Chrome/125.0.0.0 Safari/537.36"@
    }
}

/// The number of browser identities.
pub const USER_AGENT_COUNT: usize = 5;

/// The browser identity for the request with this ticket number: the identities are used
/// in turn, so consecutive tickets cycle through all of them.
pub fn next_user_agent(ticket: usize) -> (r: &'static str)
    ensures
        r@ == user_agent_spec((ticket % USER_AGENT_COUNT) as int),
{
    let i = ticket % USER_AGENT_COUNT;
    if i == 0 {
        "Mozilla/5.0 (Windows NT 10.0; Win64; x64) AppleWebKit/537.36 (KHTML, like Gecko) Chrome/125.0.0.0 Safari/537.36"
    } else if i == 1 {
        "Mozilla/5.0 (Windows NT 10.0; Win64; x64) AppleWebKit/537.36 (KHTML, like Gecko) Chrome/126.0.0.0 Safari/537.36"
    } else if i == 2 {
        "Mozilla/5.0 (Macintosh; Intel Mac OS X 10_15_7) AppleWebKit/537.36 (KHTML, like Gecko) Chrome/125.0.0.0 Safari/537.36"
    } else if i == 3 {
        "Mozilla/5.0 (Macintosh; Intel Mac OS X 10_15_7) AppleWebKit/537.36 (KHTML, like Gecko) Chrome/126.0.0.0 Safari/537.36"
    } else {
        "Mozilla/5.0 (X11; Linux x86_64) AppleWebKit/537.36 (KHTML, like Gecko) Chrome/125.0.0.0 Safari/537.36"
    }
}


/// Every wait between attempts is at most the policy's maximum, and waits never shrink
/// from one attempt to the next.
pub proof fn lemma_backoff_bounded_and_growing(policy: RetryPolicy, attempt: nat)
    ensures
        backoff_spec(policy, attempt) <= policy.max_backoff_ms,
        backoff_spec(policy, attempt) <= backoff_spec(policy, attempt + 1),
{
    assert(doubled(policy.base_backoff_ms as nat, attempt + 1) == 2 * doubled(
        policy.base_backoff_ms as nat,
        attempt,
    ));
}

/// A 429 answer is waited out as the server asks: when its `Retry-After` header is a number
/// of seconds `n` (decimal digits), the wait before the next request is `n` thousand
/// milliseconds, and the request is retried while retries remain; when none remain the
/// fetch waits as long and then fails with the 429.
pub proof fn lemma_rate_limited_waits_retry_after(
    policy: RetryPolicy,
    attempt: u32,
    header: String,
    jitter_ms: u64,
)
    requires
        header@.len() > 0,
        all_digits(header@),
        digits_value(header@) * 1000 <= u64::MAX,
    ensures
        match fetch_decision(
            policy,
            attempt,
            FetchOutcome::Status { code: 429, retry_after: Some(header) },
            jitter_ms,
        ).0 {
            FetchAction::Retry { wait_ms } => wait_ms == digits_value(header@) * 1000 && attempt
                < policy.max_retries,
            FetchAction::WaitThenFail { wait_ms, error } => wait_ms == digits_value(header@) * 1000
                && error == FetchError::Http(429) && attempt >= policy.max_retries,
            _ => false,
        },
{
    assert(header@[0] != '+');
}

/// A 429 answer without a usable `Retry-After` header is waited out for five seconds.
pub proof fn lemma_rate_limited_default_wait(
    policy: RetryPolicy,
    attempt: u32,
    header: Option<String>,
    jitter_ms: u64,
)
    requires
        match header {
            Some(h) => parse_u64_seq(h@) is None,
            None => true,
        },
    ensures
        match fetch_decision(
            policy,
            attempt,
            FetchOutcome::Status { code: 429, retry_after: header },
            jitter_ms,
        ).0 {
            FetchAction::Retry { wait_ms } => wait_ms == 5000,
            FetchAction::WaitThenFail { wait_ms, .. } => wait_ms == 5000,
            _ => false,
        },
{
}

/// A fetch retries only while retries remain, so with the attempt counted up at each retry
/// it sends at most `max_retries + 1` requests; a success is always delivered, and a client
/// error other than a retryable one is never retried.
pub proof fn lemma_retries_bounded(
    policy: RetryPolicy,
    attempt: u32,
    outcome: FetchOutcome,
    jitter_ms: u64,
)
    ensures
        fetch_decision(policy, attempt, outcome, jitter_ms).0 is Retry ==> attempt
            < policy.max_retries,
        outcome matches FetchOutcome::Status { code, .. } ==> (success_status(code) ==> fetch_decision(
            policy,
            attempt,
            outcome,
            jitter_ms,
        ).0 is Deliver),
        outcome matches FetchOutcome::Status { code, .. } ==> (client_error_status(code)
            && !retryable(code) ==> fetch_decision(policy, attempt, outcome, jitter_ms).0 is Fail),
{
}

/// The browser identities rotate: tickets five apart present the same identity, and any
/// five consecutive tickets present five different ones.
pub proof fn lemma_user_agents_rotate(ticket: nat)
    ensures
        user_agent_spec((ticket % 5) as int) == user_agent_spec(((ticket + 5) % 5) as int),
        forall|i: int, j: int|
            0 <= i < j < 5 ==> user_agent_spec(i) != user_agent_spec(j),
{
    assert((ticket + 5) % 5 == ticket % 5);
    reveal_strlit("Mozilla/5.0 (Windows NT 10.0; Win64; x64) AppleWebKit/537.36 (KHTML, like Gecko) Chrome/125.0.0.0 Safari/537.36");
    reveal_strlit("Mozilla/5.0 (Windows NT 10.0; Win64; x64) AppleWebKit/537.36 (KHTML, like Gecko) Chrome/126.0.0.0 Safari/537.36");
    reveal_strlit("Mozilla/5.0 (Macintosh; Intel Mac OS X 10_15_7) AppleWebKit/537.36 (KHTML, like Gecko) Chrome/125.0.0.0 Safari/537.36");
    reveal_strlit("Mozilla/5.0 (Macintosh; Intel Mac OS X 10_15_7) AppleWebKit/537.36 (KHTML, like Gecko) Chrome/126.0.0.0 Safari/537.36");
    reveal_strlit("Mozilla/5.0 (X11; Linux x86_64) AppleWebKit/537.36 (KHTML, like Gecko) Chrome/125.0.0.0 Safari/537.36");
    assert(user_agent_spec(0)[90] != user_agent_spec(1)[90]);
    assert(user_agent_spec(2)[96] != user_agent_spec(3)[96]);
    assert(user_agent_spec(0)[13] != user_agent_spec(2)[13]);
    assert(user_agent_spec(0)[13] != user_agent_spec(3)[13]);
    assert(user_agent_spec(0)[13] != user_agent_spec(4)[13]);
    assert(user_agent_spec(1)[13] != user_agent_spec(2)[13]);
    assert(user_agent_spec(1)[13] != user_agent_spec(3)[13]);
    assert(user_agent_spec(1)[13] != user_agent_spec(4)[13]);
    assert(user_agent_spec(2)[13] != user_agent_spec(4)[13]);
    assert(user_agent_spec(3)[13] != user_agent_spec(4)[13]);
}

/// The pause between sitemap requests of one site, in milliseconds.
pub const SITEMAP_REQUEST_DELAY_MS: u64 = 3000;

/// The pause before the next sitemap request of a site whose last request was at `last_ms`
/// (none yet: `None`): nothing once the pause has passed; otherwise what is left of it plus
/// `extra_ms` of jitter.
pub fn sitemap_request_delay(last_ms: Option<u64>, now_ms: u64, extra_ms: u64) -> (r: u64)
    requires
        extra_ms <= 1000,
    ensures
        r == (if wait_spec(SITEMAP_REQUEST_DELAY_MS, last_ms, now_ms) > 0 {
            wait_spec(SITEMAP_REQUEST_DELAY_MS, last_ms, now_ms) + extra_ms
        } else {
            0
        }),
{
    let wait = match last_ms {
        None => 0,
        Some(t) => {
            let elapsed = if now_ms >= t {
                now_ms - t
            } else {
                0
            };
            if elapsed < SITEMAP_REQUEST_DELAY_MS {
                SITEMAP_REQUEST_DELAY_MS - elapsed
            } else {
                0
            }
        },
    };
    if wait > 0 {
        jitter_delay(wait, extra_ms)
    } else {
        0
    }
}

} // verus!
