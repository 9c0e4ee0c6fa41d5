//! Hygiene for what reaches the core from outside: validation and
//! sanitizing of input, the list of endpoints that may be talked to,
//! hashing, random tokens, and a limit on requests per key.

pub mod validation;

pub use validation::{InputValidator, ValidationError};

use vstd::prelude::*;
use crate::text::{char_is_control, chars_of, occurs_at, spec_control, spec_starts_with, spec_trim, string_of, trim_chars};
use crate::platform::{instant_now, nanos_since};
use vstd::hash_map::StringHashMap;

verus! {

/// Settings of the security checks.
#[derive(Debug, PartialEq)]
pub struct SecurityConfig {
    /// The least length of a password.
    pub min_password_length: usize,
    /// How long a token is valid, in seconds.
    pub token_expiry_seconds: u64,
    /// How many failed logins lock an account.
    pub max_login_attempts: u32,
    /// How long a lockout lasts, in seconds.
    pub lockout_duration_seconds: u64,
    /// Whether local storage is encrypted.
    pub encrypt_local_storage: bool,
    /// The endpoints that may be talked to.
    pub allowed_endpoints: Vec<String>,
}

impl Default for SecurityConfig {
    fn default() -> (r: Self)
        ensures
            r.min_password_length == 8,
            r.token_expiry_seconds == 3600,
            r.max_login_attempts == 5,
            r.lockout_duration_seconds == 300,
            r.encrypt_local_storage,
            r.allowed_endpoints.deep_view() == seq![
                "https://ckc.cirkelline.com"@,
                "https://api.cirkelline.com"@,
                "http://localhost:7779"@,
            ],
    {
        let mut allowed_endpoints: Vec<String> = Vec::new();
        allowed_endpoints.push(String::from_str("https://ckc.cirkelline.com"));
        allowed_endpoints.push(String::from_str("https://api.cirkelline.com"));
        allowed_endpoints.push(String::from_str("http://localhost:7779"));
        assert(allowed_endpoints.deep_view() =~= seq![
            "https://ckc.cirkelline.com"@,
            "https://api.cirkelline.com"@,
            "http://localhost:7779"@,
        ]);
        SecurityConfig {
            min_password_length: 8,
            token_expiry_seconds: 3600,
            max_login_attempts: 5,
            lockout_duration_seconds: 300,
            encrypt_local_storage: true,
            allowed_endpoints,
        }
    }
}

/// The SHA-256 digest of a sequence of bytes.
pub uninterp spec fn sha256_digest(data: Seq<u8>) -> Seq<u8>;

/// A sequence of bytes in the standard base64 alphabet, with padding.
pub uninterp spec fn base64_text(bytes: Seq<u8>) -> Seq<char>;

/// The SHA-256 digest of `data`, computed by `sha2::Sha256`: 32 bytes that
/// depend on the data alone.
#[verifier::external_body]
fn sha256(data: &[u8]) -> (r: Vec<u8>)
    ensures
        r@ == sha256_digest(data@),
        r@.len() == 32,
{
    <sha2::Sha256 as sha2::Digest>::digest(data).to_vec()
}

/// `bytes` in base64, written by the `STANDARD` engine of the `base64`
/// crate. The text depends on the bytes alone. The engine gives up on
/// inputs whose encoding is too long for the machine; those are left out.
#[verifier::external_body]
fn base64_encode(bytes: &[u8]) -> (r: String)
    requires
        bytes@.len() <= usize::MAX / 2,
    ensures
        r@ == base64_text(bytes@),
{
    base64::Engine::encode(&base64::engine::general_purpose::STANDARD, bytes)
}

/// `length` bytes from the thread's random generator of the `rand` crate.
/// Of the bytes nothing is promised but their number.
#[verifier::external_body]
fn random_bytes(length: usize) -> (r: Vec<u8>)
    requires
        length <= usize::MAX / 2,
    ensures
        r@.len() == length,
{
    let mut bytes = vec![0u8; length];
    rand::RngCore::fill_bytes(&mut rand::thread_rng(), &mut bytes);
    bytes
}

/// The SHA-256 digest of the data, in base64.
pub fn hash_data(data: &[u8]) -> (r: String)
    ensures
        r@ == base64_text(sha256_digest(data@)),
{
    let digest = sha256(data);
    base64_encode(digest.as_slice())
}

/// A random token: `length` random bytes in base64.
pub fn generate_token(length: usize) -> (r: String)
    requires
        length <= usize::MAX / 2,
    ensures
        exists|bytes: Seq<u8>| bytes.len() == length && r@ == #[trigger] base64_text(bytes),
{
    let bytes = random_bytes(length);
    let r = base64_encode(bytes.as_slice());
    assert(bytes@.len() == length && r@ == base64_text(bytes@));
    r
}

/// Whether a character survives the sanitizing of input: everything but
/// control codes, of which only line feed and tabulator stay.
pub open spec fn spec_input_char(c: char) -> bool {
    !spec_control(c) || c == '\n' || c == '\t'
}

/// Input without control codes and without whitespace at its ends.
pub open spec fn spec_sanitize_input(input: Seq<char>) -> Seq<char> {
    spec_trim(input.filter(|c: char| spec_input_char(c)))
}

/// Strips input of control codes, but for line feeds and tabulators, and of
/// the whitespace at its ends.
pub fn sanitize_input(input: &str) -> (r: String)
    ensures
        r@ == spec_sanitize_input(input@),
{
    let chars = chars_of(input);
    let ghost keep = |c: char| spec_input_char(c);
    let mut kept: Vec<char> = Vec::new();
    let mut i: usize = 0;
    assert(chars@.take(0).filter(keep) =~= Seq::<char>::empty()) by {
        reveal(Seq::filter);
    }
    while i < chars.len()
        invariant
            i <= chars.len(),
            keep == |c: char| spec_input_char(c),
            kept@ == chars@.take(i as int).filter(keep),
        decreases chars.len() - i,
    {
        let c = chars[i];
        proof {
            chars@.take(i as int).lemma_filter_push(c, keep);
            assert(chars@.take(i + 1) =~= chars@.take(i as int).push(c));
        }
        if !char_is_control(c) || c == '\n' || c == '\t' {
            kept.push(c);
        }
        i += 1;
    }
    assert(chars@.take(chars.len() as int) =~= chars@);
    let trimmed = trim_chars(&kept);
    string_of(&trimmed)
}

/// The address begins with one of the endpoints.
pub open spec fn spec_endpoint_allowed(url: Seq<char>, allowed: Seq<Seq<char>>) -> bool {
    exists|k: int| 0 <= k < allowed.len() && spec_starts_with(url, #[trigger] allowed[k])
}

/// Whether the address begins with one of the allowed endpoints.
pub fn is_endpoint_allowed(url: &str, config: &SecurityConfig) -> (r: bool)
    ensures
        r == spec_endpoint_allowed(url@, config.allowed_endpoints.deep_view()),
{
    let chars = chars_of(url);
    let ghost allowed = config.allowed_endpoints.deep_view();
    let mut i: usize = 0;
    while i < config.allowed_endpoints.len()
        invariant
            i <= config.allowed_endpoints.len(),
            allowed == config.allowed_endpoints.deep_view(),
            chars@ == url@,
            forall|k: int| 0 <= k < i ==> !spec_starts_with(url@, #[trigger] allowed[k]),
        decreases config.allowed_endpoints.len() - i,
    {
        let prefix = chars_of(config.allowed_endpoints[i].as_str());
        assert(allowed[i as int] == prefix@);
        if occurs_at(&chars, &prefix, 0) {
            return true;
        }
        i += 1;
    }
    false
}

/// Nanoseconds in a second.
pub const NANOS_PER_SECOND: u128 = 1_000_000_000;

/// A limiter of requests per key within a sliding window of time.
pub struct RateLimiter {
    /// The keys that asked, each with the times of its requests, in
    /// nanoseconds on the limiter's own clock.
    requests: StringHashMap<Vec<u128>>,
    max_requests: usize,
    window_seconds: u64,
    origin: std::time::Instant,
}

/// The model of a `RateLimiter`. Times are nanoseconds on the limiter's own
/// monotonic clock.
pub struct KeyedLimiterView {
    pub requests: Map<Seq<char>, Vec<u128>>,
    pub max_requests: usize,
    pub window_seconds: u64,
}

/// The requests among `times` that lie less than the window before `now`.
pub open spec fn spec_recent(times: Seq<u128>, now: u128, window_seconds: u64) -> Seq<u128> {
    times.filter(
        |t: u128|
            (if now >= t {
                now - t
            } else {
                0
            }) < window_seconds * NANOS_PER_SECOND,
    )
}

impl KeyedLimiterView {
    /// The times of the requests that are remembered for the key.
    pub open spec fn times_of(self, key: Seq<char>) -> Seq<u128> {
        if self.requests.contains_key(key) {
            self.requests[key]@
        } else {
            Seq::empty()
        }
    }

    /// The requests of the key within the window before `now`.
    pub open spec fn recent(self, key: Seq<char>, now: u128) -> Seq<u128> {
        spec_recent(self.times_of(key), now, self.window_seconds)
    }

    /// Whether a request of the key is allowed at the time `now`.
    pub open spec fn allows(self, key: Seq<char>, now: u128) -> bool {
        self.recent(key, now).len() < self.max_requests
    }

    /// How many more requests of the key are allowed at the time `now`.
    pub open spec fn remaining(self, key: Seq<char>, now: u128) -> int {
        if self.recent(key, now).len() < self.max_requests {
            self.max_requests - self.recent(key, now).len()
        } else {
            0
        }
    }

    /// `after` is the limiter after the key asked at the time `now`: what
    /// lies outside the window is forgotten for the key, an allowed request
    /// is remembered, and the other keys are left alone.
    pub open spec fn asked(self, after: KeyedLimiterView, key: Seq<char>, now: u128) -> bool {
        &&& after.max_requests == self.max_requests
        &&& after.window_seconds == self.window_seconds
        &&& after.times_of(key) == if self.allows(key, now) {
            self.recent(key, now).push(now)
        } else {
            self.recent(key, now)
        }
        &&& forall|other: Seq<char>|
            other != key ==> #[trigger] after.times_of(other) == self.times_of(other)
    }
}

impl View for RateLimiter {
    type V = KeyedLimiterView;

    closed spec fn view(&self) -> KeyedLimiterView {
        KeyedLimiterView {
            requests: self.requests@,
            max_requests: self.max_requests,
            window_seconds: self.window_seconds,
        }
    }
}

/// The requests among `times` that lie less than the window before `now`.
fn recent_times(times: &Vec<u128>, now: u128, window_seconds: u64) -> (r: Vec<u128>)
    ensures
        r@ == spec_recent(times@, now, window_seconds),
{
    let ghost keep = |t: u128|
        (if now >= t {
            now - t
        } else {
            0
        }) < window_seconds * NANOS_PER_SECOND;
    let window: u128 = (window_seconds as u128) * NANOS_PER_SECOND;
    let mut out: Vec<u128> = Vec::new();
    let mut i: usize = 0;
    assert(times@.take(0).filter(keep) =~= Seq::<u128>::empty()) by {
        reveal(Seq::filter);
    }
    while i < times.len()
        invariant
            i <= times.len(),
            window == window_seconds * NANOS_PER_SECOND,
            keep == |t: u128|
                (if now >= t {
                    now - t
                } else {
                    0
                }) < window_seconds * NANOS_PER_SECOND,
            out@ == times@.take(i as int).filter(keep),
        decreases times.len() - i,
    {
        let t = times[i];
        proof {
            times@.take(i as int).lemma_filter_push(t, keep);
            assert(times@.take(i + 1) =~= times@.take(i as int).push(t));
        }
        let elapsed: u128 = if now >= t {
            now - t
        } else {
            0
        };
        if elapsed < window {
            out.push(t);
        }
        i += 1;
    }
    assert(times@.take(times.len() as int) =~= times@);
    out
}

impl RateLimiter {
    /// A limiter of `max_requests` per key within any `window_seconds`
    /// seconds, that remembers nothing yet.
    pub fn new(max_requests: usize, window_seconds: u64) -> (r: Self)
        ensures
            r@ == (KeyedLimiterView { requests: Map::empty(), max_requests, window_seconds }),
    {
        RateLimiter {
            requests: StringHashMap::new(),
            max_requests,
            window_seconds,
            origin: instant_now(),
        }
    }

    /// The requests of the key within the window before `now`.
    fn recent_of(&self, key: &str, now: u128) -> (r: Vec<u128>)
        ensures
            r@ == self@.recent(key@, now),
    {
        match self.requests.get(key) {
            Some(times) => recent_times(times, now, self.window_seconds),
            None => {
                proof {
                    reveal(Seq::filter);
                    assert(self@.recent(key@, now) =~= Seq::<u128>::empty());
                }
                Vec::new()
            },
        }
    }

    /// Whether a request of the key is allowed at the time `now` on the
    /// limiter's clock. An allowed request is remembered.
    pub fn check_at(&mut self, key: &str, now: u128) -> (r: bool)
        ensures
            r == old(self)@.allows(key@, now),
            old(self)@.asked(final(self)@, key@, now),
    {
        let ghost before = self@;
        let mut recent = self.recent_of(key, now);
        let allowed = recent.len() < self.max_requests;
        if allowed {
            recent.push(now);
        }
        let ghost kept = recent@;
        self.requests.insert(String::from_str(key), recent);
        proof {
            let after = self@;
            assert(after.times_of(key@) == kept);
            assert forall|other: Seq<char>| other != key@ implies #[trigger] after.times_of(other)
                == before.times_of(other) by {}
        }
        allowed
    }

    /// Whether a request of the key is allowed now. An allowed request is
    /// remembered.
    pub fn check(&mut self, key: &str) -> (r: bool)
        ensures
            exists|now: u128|
                r == #[trigger] old(self)@.allows(key@, now) && old(self)@.asked(
                    final(self)@,
                    key@,
                    now,
                ),
    {
        let now = nanos_since(&self.origin);
        let ghost before = self@;
        let r = self.check_at(key, now);
        assert(r == before.allows(key@, now) && before.asked(self@, key@, now));
        r
    }

    /// How many more requests of the key are allowed at the time `now` on
    /// the limiter's clock.
    pub fn remaining_at(&self, key: &str, now: u128) -> (r: usize)
        ensures
            r == self@.remaining(key@, now),
    {
        let recent = self.recent_of(key, now);
        if recent.len() < self.max_requests {
            self.max_requests - recent.len()
        } else {
            0
        }
    }

    /// How many more requests of the key are allowed now.
    pub fn remaining(&self, key: &str) -> (r: usize)
        ensures
            exists|now: u128| r == #[trigger] self@.remaining(key@, now),
    {
        let now = nanos_since(&self.origin);
        let r = self.remaining_at(key, now);
        assert(r == self@.remaining(key@, now));
        r
    }
}

/// After as many requests as the limit allows within one window, the next
/// request of that key is refused, and a request of a key that never asked
/// is allowed where the limit allows any.
pub proof fn lemma_key_is_limited(limiter: KeyedLimiterView, key: Seq<char>, now: u128)
    ensures
        limiter.recent(key, now).len() >= limiter.max_requests ==> !limiter.allows(key, now)
            && limiter.remaining(key, now) == 0,
        limiter.times_of(key).len() == 0 && limiter.max_requests > 0 ==> limiter.allows(
            key,
            now,
        ) && limiter.remaining(key, now) == limiter.max_requests,
{
    reveal(Seq::filter);
    if limiter.times_of(key).len() == 0 {
        assert(limiter.times_of(key) =~= Seq::<u128>::empty());
        assert(limiter.recent(key, now) =~= Seq::<u128>::empty());
    }
}

} // verus!
