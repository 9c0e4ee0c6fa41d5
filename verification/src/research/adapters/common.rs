//! What the adapters share: settings, rate limiting and request planning.

use vstd::prelude::*;
use crate::platform::{instant_now, nanos_since};
use crate::research::traits::ResearchError;
use crate::text::{char_is_whitespace, chars_of, spec_alphanumeric, spec_trim, spec_whitespace, string_of, trim_chars};

verus! {

/// Settings common to the adapters.
#[derive(Debug, PartialEq)]
pub struct AdapterConfig {
    /// The address that requests go to.
    pub base_url: String,
    /// The key to authenticate with, if any.
    pub api_key: Option<String>,
    /// How long a request may take, in seconds.
    pub timeout_secs: u64,
    /// The most results asked for per request.
    pub max_results: usize,
    /// The user agent that requests carry.
    pub user_agent: String,
}

impl Default for AdapterConfig {
    fn default() -> (r: Self)
        ensures
            r.base_url@ == Seq::<char>::empty(),
            r.api_key is None,
            r.timeout_secs == 30,
            r.max_results == 50,
            r.user_agent@ == "CLA-ResearchAdapter/1.0 (Cirkelline Local Agent)"@,
    {
        AdapterConfig {
            base_url: String::new(),
            api_key: None,
            timeout_secs: 30,
            max_results: 50,
            user_agent: String::from_str("CLA-ResearchAdapter/1.0 (Cirkelline Local Agent)"),
        }
    }
}

/// Nanoseconds in a second.
pub const NANOS_PER_SECOND: u128 = 1_000_000_000;

/// How often `RateLimiter::acquire` looks again before it gives up.
pub const MAX_ACQUIRE_ATTEMPTS: u32 = 60;

/// The counters of a rate limiter. Times are nanoseconds on the limiter's
/// own monotonic clock.
pub struct LimiterView {
    pub max_requests: u32,
    pub window_secs: u64,
    pub request_count: u64,
    pub window_start: u128,
}

impl LimiterView {
    /// The window's length in nanoseconds.
    pub open spec fn window_nanos(self) -> int {
        self.window_secs * NANOS_PER_SECOND
    }

    /// The time that has passed since the window began; none where the
    /// clock reads earlier than the window's start.
    pub open spec fn elapsed(self, now: u128) -> int {
        if now >= self.window_start {
            now - self.window_start
        } else {
            0
        }
    }

    /// The limiter after a look at the clock: a window that has run out
    /// begins anew, with nothing counted.
    pub open spec fn refreshed(self, now: u128) -> LimiterView {
        if self.elapsed(now) >= self.window_nanos() {
            LimiterView { request_count: 0, window_start: now, ..self }
        } else {
            self
        }
    }

    /// Whether a request may be made at the time `now`.
    pub open spec fn allows(self, now: u128) -> bool {
        self.refreshed(now).request_count < self.max_requests
    }

    /// The limiter after one request was counted.
    pub open spec fn recorded(self) -> LimiterView {
        LimiterView {
            request_count: if self.request_count < u64::MAX {
                (self.request_count + 1) as u64
            } else {
                0
            },
            ..self
        }
    }

    /// What one look of an acquisition finds at the time `now`, after
    /// `attempts` earlier looks: the request is granted where the limit
    /// allows it; else the caller is to wait and look again, until the
    /// attempts are used up.
    pub open spec fn acquisition(self, attempts: u32, now: u128) -> AcquireStep {
        if self.allows(now) {
            AcquireStep::Granted
        } else if attempts >= MAX_ACQUIRE_ATTEMPTS {
            AcquireStep::Refused(
                ResearchError::RateLimited { retry_after_secs: Some(self.window_secs) },
            )
        } else {
            AcquireStep::Wait
        }
    }

    /// The limiter after one look of an acquisition at the time `now`: a
    /// request that was granted is counted.
    pub open spec fn acquired(self, now: u128) -> LimiterView {
        if self.allows(now) {
            self.refreshed(now).recorded()
        } else {
            self.refreshed(now)
        }
    }

    /// The limiter after `n` requests were counted.
    pub open spec fn recorded_times(self, n: nat) -> LimiterView
        decreases n,
    {
        if n == 0 {
            self
        } else {
            self.recorded_times((n - 1) as nat).recorded()
        }
    }
}

/// What `RateLimiter::acquire` found.
#[derive(Debug, PartialEq)]
pub enum AcquireStep {
    /// The request may be made; it has been counted.
    Granted,
    /// The limit is reached: wait a second and ask again.
    Wait,
    /// The limit was reached at every attempt.
    Refused(ResearchError),
}

/// A limiter of requests per window of time.
#[derive(Debug)]
pub struct RateLimiter {
    max_requests: u32,
    window_secs: u64,
    request_count: u64,
    window_start: u128,
    origin: std::time::Instant,
}

impl View for RateLimiter {
    type V = LimiterView;

    closed spec fn view(&self) -> LimiterView {
        LimiterView {
            max_requests: self.max_requests,
            window_secs: self.window_secs,
            request_count: self.request_count,
            window_start: self.window_start,
        }
    }
}

impl RateLimiter {
    /// A limiter of `max_requests` per `window_secs` seconds, whose first
    /// window begins now.
    pub fn new(max_requests: u32, window_secs: u64) -> (r: Self)
        ensures
            r@ == (LimiterView { max_requests, window_secs, request_count: 0, window_start: 0 }),
    {
        RateLimiter {
            max_requests,
            window_secs,
            request_count: 0,
            window_start: 0,
            origin: instant_now(),
        }
    }

    /// Whether a request may be made at the time `now` on the limiter's
    /// clock. A window that has run out begins anew.
    pub fn check_at(&mut self, now: u128) -> (r: bool)
        ensures
            r == old(self)@.allows(now),
            final(self)@ == old(self)@.refreshed(now),
    {
        let elapsed: u128 = if now >= self.window_start {
            now - self.window_start
        } else {
            0
        };
        let window: u128 = (self.window_secs as u128) * NANOS_PER_SECOND;
        if elapsed >= window {
            self.window_start = now;
            self.request_count = 0;
        }
        self.request_count < self.max_requests as u64
    }

    /// Whether a request may be made now.
    pub fn check(&mut self) -> (r: bool)
        ensures
            exists|now: u128|
                r == #[trigger] old(self)@.allows(now) && final(self)@ == old(self)@.refreshed(
                    now,
                ),
    {
        let now = nanos_since(&self.origin);
        let ghost before = self@;
        let r = self.check_at(now);
        assert(r == before.allows(now) && self@ == before.refreshed(now));
        r
    }

    /// Counts one request.
    pub fn record(&mut self)
        ensures
            final(self)@ == old(self)@.recorded(),
    {
        if self.request_count < u64::MAX {
            self.request_count = self.request_count + 1;
        } else {
            self.request_count = 0;
        }
    }

    /// One look of an acquisition at the time `now`, after `attempts`
    /// earlier looks: the request is granted and counted where the limit
    /// allows; else the caller is to wait a second and look again, until
    /// the attempts are used up.
    pub fn acquire_at(&mut self, attempts: u32, now: u128) -> (r: AcquireStep)
        ensures
            r == old(self)@.acquisition(attempts, now),
            final(self)@ == old(self)@.acquired(now),
    {
        if self.check_at(now) {
            self.record();
            AcquireStep::Granted
        } else if attempts >= MAX_ACQUIRE_ATTEMPTS {
            AcquireStep::Refused(
                ResearchError::RateLimited { retry_after_secs: Some(self.window_secs) },
            )
        } else {
            AcquireStep::Wait
        }
    }

    /// One look of an acquisition now, after `attempts` earlier looks.
    pub fn acquire(&mut self, attempts: u32) -> (r: AcquireStep)
        ensures
            exists|now: u128|
                r == #[trigger] old(self)@.acquisition(attempts, now)
                    && final(self)@ == old(self)@.acquired(now),
    {
        let now = nanos_since(&self.origin);
        let ghost before = self@;
        let r = self.acquire_at(attempts, now);
        assert(r == before.acquisition(attempts, now) && self@ == before.acquired(now));
        r
    }
}

/// A request as an adapter plans it.
#[derive(Debug, PartialEq)]
pub struct HttpRequest {
    pub url: String,
    /// Header names with their values, in the order they are set.
    pub headers: Vec<(String, String)>,
}

/// The value of the header that carries an API key.
pub open spec fn spec_bearer(key: Seq<char>) -> Seq<char> {
    "Bearer "@ + key
}

/// The headers of a request: the API key first, where one is configured,
/// then the caller's own.
pub open spec fn spec_headers(api_key: Option<Seq<char>>, extra: Seq<(Seq<char>, Seq<char>)>) -> Seq<
    (Seq<char>, Seq<char>),
> {
    match api_key {
        Some(key) => seq![("Authorization"@, spec_bearer(key))] + extra,
        None => extra,
    }
}

/// The model of a list of headers.
pub open spec fn spec_header_views(headers: Seq<(String, String)>) -> Seq<(Seq<char>, Seq<char>)> {
    headers.map_values(|h: (String, String)| (h.0@, h.1@))
}

/// Plans requests for one adapter behind one rate limiter.
#[derive(Debug)]
pub struct HttpHelper {
    config: AdapterConfig,
    rate_limiter: RateLimiter,
}

impl HttpHelper {
    /// Settings and limiter as they stand.
    pub closed spec fn config(&self) -> AdapterConfig {
        self.config
    }

    /// The limiter as it stands.
    pub closed spec fn limiter(&self) -> LimiterView {
        self.rate_limiter@
    }

    /// A helper with the settings given and a limiter of `rate_limit`
    /// requests per seconds, 60 per 60 unless said otherwise.
    pub fn new(config: AdapterConfig, rate_limit: Option<(u32, u64)>) -> (r: Self)
        ensures
            r.config() == config,
            r.limiter() == (LimiterView {
                max_requests: match rate_limit {
                    Some(limit) => limit.0,
                    None => 60,
                },
                window_secs: match rate_limit {
                    Some(limit) => limit.1,
                    None => 60,
                },
                request_count: 0,
                window_start: 0,
            }),
    {
        let (max_requests, window_secs) = match rate_limit {
            Some(limit) => limit,
            None => (60, 60),
        };
        HttpHelper { config, rate_limiter: RateLimiter::new(max_requests, window_secs) }
    }

    /// One look of the limiter before a request, after `attempts` earlier
    /// looks.
    pub fn acquire(&mut self, attempts: u32) -> (r: AcquireStep)
        ensures
            exists|now: u128|
                r == #[trigger] old(self).limiter().acquisition(attempts, now)
                    && final(self).limiter() == old(self).limiter().acquired(now),
            final(self).config() == old(self).config(),
    {
        let ghost before = self.rate_limiter@;
        let r = self.rate_limiter.acquire(attempts);
        proof {
            let now = choose|now: u128|
                r == #[trigger] before.acquisition(attempts, now) && self.rate_limiter@
                    == before.acquired(now);
            assert(r == old(self).limiter().acquisition(attempts, now));
        }
        r
    }

    /// A GET request to `url`, with the API key where one is configured.
    pub fn get(&self, url: &str) -> (r: HttpRequest)
        ensures
            r.url@ == url@,
            spec_header_views(r.headers@) == spec_headers(
                self.config().api_key.deep_view(),
                Seq::empty(),
            ),
    {
        let extra: Vec<(String, String)> = Vec::new();
        assert(spec_header_views(extra@) =~= Seq::empty());
        self.get_with_headers(url, &extra)
    }

    /// A GET request to `url`, with the API key where one is configured and
    /// the headers given.
    pub fn get_with_headers(&self, url: &str, headers: &Vec<(String, String)>) -> (r: HttpRequest)
        ensures
            r.url@ == url@,
            spec_header_views(r.headers@) == spec_headers(
                self.config().api_key.deep_view(),
                spec_header_views(headers@),
            ),
    {
        let mut all: Vec<(String, String)> = Vec::new();
        match &self.config.api_key {
            Some(key) => {
                let mut value = String::from_str("Bearer ");
                value.append(key.as_str());
                all.push((String::from_str("Authorization"), value));
            },
            None => {},
        }
        let ghost start = spec_header_views(all@);
        assert(start =~= spec_headers(self.config().api_key.deep_view(), Seq::empty()));
        let mut i: usize = 0;
        while i < headers.len()
            invariant
                i <= headers.len(),
                spec_header_views(all@) == start + spec_header_views(headers@).take(i as int),
            decreases headers.len() - i,
        {
            let ghost before = spec_header_views(all@);
            all.push((headers[i].0.clone(), headers[i].1.clone()));
            assert(spec_header_views(all@) =~= before.push((headers@[i as int].0@, headers@[i as int].1@)));
            i += 1;
            assert(spec_header_views(all@) =~= start + spec_header_views(headers@).take(i as int));
        }
        assert(spec_header_views(headers@).take(headers.len() as int) =~= spec_header_views(
            headers@,
        ));
        HttpRequest { url: String::from_str(url), headers: all }
    }

    /// The address that requests go to.
    pub fn base_url(&self) -> (r: &str)
        ensures
            r@ == self.config().base_url@,
    {
        self.config.base_url.as_str()
    }

    /// How long a request may take, in seconds.
    pub fn timeout_secs(&self) -> (r: u64)
        ensures
            r == self.config().timeout_secs,
    {
        self.config.timeout_secs
    }

    /// The user agent that requests carry.
    pub fn user_agent(&self) -> (r: &str)
        ensures
            r@ == self.config().user_agent@,
    {
        self.config.user_agent.as_str()
    }

    /// The most results asked for per request.
    pub fn max_results(&self) -> (r: usize)
        ensures
            r == self.config().max_results,
    {
        self.config.max_results
    }
}

/// Whether a character may stand in a query.
pub open spec fn spec_query_char(c: char) -> bool {
    spec_alphanumeric(c) || spec_whitespace(c) || c == '-' || c == '_'
}

/// A query without the characters that may not stand in one, and without
/// whitespace at its ends.
pub open spec fn spec_sanitize_query(query: Seq<char>) -> Seq<char> {
    spec_trim(query.filter(|c: char| spec_query_char(c)))
}

/// Strips a query of everything but letters, digits, whitespace, hyphens and
/// underscores, and of the whitespace at its ends.
pub fn sanitize_query(query: &str) -> (r: String)
    ensures
        r@ == spec_sanitize_query(query@),
{
    let chars = chars_of(query);
    let ghost keep = |c: char| spec_query_char(c);
    let mut kept: Vec<char> = Vec::new();
    let mut i: usize = 0;
    assert(chars@.take(0).filter(keep) =~= Seq::<char>::empty()) by {
        reveal(Seq::filter);
    }
    while i < chars.len()
        invariant
            i <= chars.len(),
            keep == |c: char| spec_query_char(c),
            kept@ == chars@.take(i as int).filter(keep),
        decreases chars.len() - i,
    {
        let c = chars[i];
        proof {
            chars@.take(i as int).lemma_filter_push(c, keep);
            assert(chars@.take(i + 1) =~= chars@.take(i as int).push(c));
        }
        if c.is_alphanumeric() || char_is_whitespace(c) || c == '-' || c == '_' {
            kept.push(c);
        }
        i += 1;
    }
    assert(chars@.take(chars.len() as int) =~= chars@);
    let trimmed = trim_chars(&kept);
    string_of(&trimmed)
}

/// Counting never touches the limit or the window.
pub proof fn lemma_recorded_times(limiter: LimiterView, n: nat)
    requires
        limiter.request_count + n <= u64::MAX,
    ensures
        limiter.recorded_times(n) == (LimiterView {
            request_count: (limiter.request_count + n) as u64,
            ..limiter
        }),
    decreases n,
{
    if n > 0 {
        lemma_recorded_times(limiter, (n - 1) as nat);
    }
}

/// After as many requests as the limit allows were counted in a fresh
/// window, no further request is allowed while the window lasts; once it has
/// run out, requests are allowed again.
pub proof fn lemma_limit_holds_until_window_ends(limiter: LimiterView, now: u128)
    requires
        limiter.request_count == 0,
    ensures
        limiter.recorded_times(limiter.max_requests as nat).elapsed(now)
            < limiter.window_nanos() ==> !limiter.recorded_times(
            limiter.max_requests as nat,
        ).allows(now),
        limiter.recorded_times(limiter.max_requests as nat).elapsed(now)
            >= limiter.window_nanos() && limiter.max_requests > 0 ==> limiter.recorded_times(
            limiter.max_requests as nat,
        ).allows(now),
        forall|n: nat|
            n < limiter.max_requests ==> #[trigger] limiter.recorded_times(n).elapsed(now)
                < limiter.window_nanos() ==> limiter.recorded_times(n).allows(now),
{
    lemma_recorded_times(limiter, limiter.max_requests as nat);
    assert forall|n: nat|
        n < limiter.max_requests && #[trigger] limiter.recorded_times(n).elapsed(now)
            < limiter.window_nanos() implies limiter.recorded_times(n).allows(now) by {
        lemma_recorded_times(limiter, n);
    }
}

} // verus!
