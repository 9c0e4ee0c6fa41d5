//! Detection of an idle user.
//!
//! The platform's own reading of the idle time, where there is one, is
//! handed in from outside; without one, the time counts that has passed on
//! the detector's own clock since the last recorded activity.

use vstd::prelude::*;
use crate::platform::{instant_now, nanos_since};
use crate::text::{
    chars_of, occurs_at, parse_u64_chars, slice_chars, spec_parse_u64, spec_starts_with,
    spec_words, split_words,
};

verus! {

/// A detector of idleness.
#[derive(Debug)]
pub struct IdleDetector {
    /// The beginning of the detector's own monotonic clock.
    origin: std::time::Instant,
    /// The reading of that clock, in nanoseconds, at the last recorded
    /// activity.
    last_activity: u128,
    idle_threshold: u32,
    platform_idle: Option<u32>,
}

/// The model of an `IdleDetector`. Times are nanoseconds on the detector's
/// own monotonic clock.
pub struct IdleView {
    /// The idle seconds from which on the user counts as idle.
    pub idle_threshold: u32,
    /// The platform's latest reading of the idle seconds, if it gave one.
    pub platform_idle: Option<u32>,
    /// When the user was last recorded as active.
    pub last_activity: u128,
}

impl View for IdleDetector {
    type V = IdleView;

    closed spec fn view(&self) -> IdleView {
        IdleView {
            idle_threshold: self.idle_threshold,
            platform_idle: self.platform_idle,
            last_activity: self.last_activity,
        }
    }
}

/// Nanoseconds in a second.
pub const NANOS_PER_SECOND: u128 = 1_000_000_000;

/// Whether `idle_seconds` of idleness reach the threshold.
pub open spec fn spec_is_idle(idle_seconds: u32, threshold: u32) -> bool {
    idle_seconds >= threshold
}

impl IdleView {
    /// The whole seconds from the last recorded activity to the time `now`,
    /// of which the low 32 bits are kept; none where the clock reads
    /// earlier than the activity.
    pub open spec fn heuristic_idle_seconds(self, now: u128) -> u32 {
        let elapsed: int = if now >= self.last_activity {
            now - self.last_activity
        } else {
            0
        };
        ((elapsed / (NANOS_PER_SECOND as int)) % 0x1_0000_0000) as u32
    }

    /// The idle seconds at the time `now`: the platform's reading where
    /// there is one, else the seconds since the last recorded activity.
    pub open spec fn idle_seconds(self, now: u128) -> u32 {
        match self.platform_idle {
            Some(reading) => reading,
            None => self.heuristic_idle_seconds(now),
        }
    }

    /// Whether the user is idle at the time `now`.
    pub open spec fn is_idle(self, now: u128) -> bool {
        spec_is_idle(self.idle_seconds(now), self.idle_threshold)
    }

    /// The detector after an activity was recorded at the time `now`.
    pub open spec fn recorded(self, now: u128) -> IdleView {
        IdleView { last_activity: now, ..self }
    }
}

impl IdleDetector {
    /// A detector with the threshold given, whose clock begins now and
    /// whose user was active just then.
    pub fn new(idle_threshold_seconds: u32) -> (r: Self)
        ensures
            r@ == (IdleView {
                idle_threshold: idle_threshold_seconds,
                platform_idle: None,
                last_activity: 0,
            }),
    {
        IdleDetector {
            origin: instant_now(),
            last_activity: 0,
            idle_threshold: idle_threshold_seconds,
            platform_idle: None,
        }
    }

    /// Takes in the platform's reading of the idle seconds, or that it has
    /// none.
    pub fn set_platform_idle(&mut self, reading: Option<u32>)
        ensures
            final(self)@ == (IdleView { platform_idle: reading, ..old(self)@ }),
    {
        self.platform_idle = reading;
    }

    /// Whether the user is idle: whether the idle seconds reach the
    /// threshold.
    pub fn is_idle(&self) -> (r: bool)
        ensures
            exists|now: u128| r == #[trigger] self@.is_idle(now),
            self@.platform_idle matches Some(reading) ==> r == spec_is_idle(
                reading,
                self@.idle_threshold,
            ),
            self@.idle_threshold == 0 ==> r,
    {
        let idle_seconds = self.get_idle_seconds();
        proof {
            let now = choose|now: u128| idle_seconds == #[trigger] self@.idle_seconds(now);
            assert((idle_seconds >= self.idle_threshold) == self@.is_idle(now));
        }
        idle_seconds >= self.idle_threshold
    }

    /// The idle seconds: the platform's reading where there is one, else
    /// the seconds since the last recorded activity.
    pub fn get_idle_seconds(&self) -> (r: u32)
        ensures
            exists|now: u128| r == #[trigger] self@.idle_seconds(now),
            self@.platform_idle matches Some(reading) ==> r == reading,
    {
        match self.platform_idle {
            Some(idle) => {
                assert(idle == self@.idle_seconds(0));
                idle
            },
            None => {
                let r = self.get_heuristic_idle_seconds();
                proof {
                    let now = choose|now: u128|
                        r == #[trigger] self@.heuristic_idle_seconds(now);
                    assert(r == self@.idle_seconds(now));
                }
                r
            },
        }
    }

    /// The whole seconds from the last recorded activity to the time `now`
    /// on the detector's clock, of which the low 32 bits are kept.
    pub fn get_heuristic_idle_seconds_at(&self, now: u128) -> (r: u32)
        ensures
            r == self@.heuristic_idle_seconds(now),
    {
        let elapsed: u128 = if now >= self.last_activity {
            now - self.last_activity
        } else {
            0
        };
        ((elapsed / NANOS_PER_SECOND) % 0x1_0000_0000) as u32
    }

    /// The seconds since the last recorded activity, of which the low 32
    /// bits are kept.
    pub fn get_heuristic_idle_seconds(&self) -> (r: u32)
        ensures
            exists|now: u128| r == #[trigger] self@.heuristic_idle_seconds(now),
    {
        let now = nanos_since(&self.origin);
        let r = self.get_heuristic_idle_seconds_at(now);
        assert(r == self@.heuristic_idle_seconds(now));
        r
    }

    /// Records that the user was active at the time `now` on the
    /// detector's clock: the idle seconds are counted from then on.
    pub fn record_activity_at(&mut self, now: u128)
        ensures
            final(self)@ == old(self)@.recorded(now),
    {
        self.last_activity = now;
    }

    /// Records that the user was active just now.
    pub fn record_activity(&mut self)
        ensures
            exists|now: u128| final(self)@ == #[trigger] old(self)@.recorded(now),
    {
        let now = nanos_since(&self.origin);
        self.record_activity_at(now);
        assert(self@ == old(self)@.recorded(now));
    }

    /// Sets the threshold.
    pub fn set_threshold(&mut self, seconds: u32)
        ensures
            final(self)@ == (IdleView { idle_threshold: seconds, ..old(self)@ }),
    {
        self.idle_threshold = seconds;
    }

    /// The threshold.
    pub fn get_threshold(&self) -> (r: u32)
        ensures
            r == self@.idle_threshold,
    {
        self.idle_threshold
    }
}

/// Once an activity was recorded, the idle seconds count from it: none
/// until a full second has passed, and idle again only when the threshold
/// is reached.
pub proof fn lemma_activity_resets_idleness(detector: IdleView, at: u128, later: u128)
    requires
        at <= later,
        later - at < 0x1_0000_0000 * NANOS_PER_SECOND,
    ensures
        detector.recorded(at).heuristic_idle_seconds(later) == (later - at) / (
        NANOS_PER_SECOND as int),
        later - at < NANOS_PER_SECOND ==> detector.recorded(at).heuristic_idle_seconds(later)
            == 0,
        detector.platform_idle is None ==> (detector.recorded(at).is_idle(later) <==> (later
            - at) / (NANOS_PER_SECOND as int) >= detector.idle_threshold),
{
}

/// A detector with callbacks that hear of every change between idle and
/// active.
pub struct IdleCallbackManager<F: Fn(bool)> {
    detector: IdleDetector,
    callbacks: Vec<F>,
    last_state: bool,
}

impl<F: Fn(bool)> IdleCallbackManager<F> {
    /// The detector as it stands.
    pub closed spec fn detector(&self) -> IdleView {
        self.detector@
    }

    /// The callbacks, in the order of their registration.
    pub closed spec fn callbacks(&self) -> Seq<F> {
        self.callbacks@
    }

    /// The state that the callbacks heard of last.
    pub closed spec fn last_state(&self) -> bool {
        self.last_state
    }

    /// Every callback can be called with either state.
    pub open spec fn wf(&self) -> bool {
        forall|k: int, state: bool|
            0 <= k < self.callbacks().len() ==> #[trigger] call_requires(
                self.callbacks()[k],
                (state,),
            )
    }

    /// A manager without callbacks, whose user counts as active.
    pub fn new(idle_threshold_seconds: u32) -> (r: Self)
        ensures
            r.wf(),
            r.detector() == (IdleView {
                idle_threshold: idle_threshold_seconds,
                platform_idle: None,
                last_activity: 0,
            }),
            r.callbacks() == Seq::<F>::empty(),
            !r.last_state(),
    {
        IdleCallbackManager {
            detector: IdleDetector::new(idle_threshold_seconds),
            callbacks: Vec::new(),
            last_state: false,
        }
    }

    /// Registers a callback for changes of the state.
    pub fn on_idle_change(&mut self, callback: F)
        requires
            old(self).wf(),
            forall|state: bool| call_requires(callback, (state,)),
        ensures
            final(self).wf(),
            final(self).callbacks() == old(self).callbacks().push(callback),
            final(self).detector() == old(self).detector(),
            final(self).last_state() == old(self).last_state(),
    {
        self.callbacks.push(callback);
        assert forall|k: int, state: bool| 0 <= k < self.callbacks().len() implies #[trigger] call_requires(
            self.callbacks()[k],
            (state,),
        ) by {
            if k < old(self).callbacks().len() {
                assert(self.callbacks()[k] == old(self).callbacks()[k]);
                assert(call_requires(old(self).callbacks()[k], (state,)));
            } else {
                assert(self.callbacks()[k] == callback);
            }
        }
    }

    /// Takes in the platform's reading of the idle seconds.
    pub fn set_platform_idle(&mut self, reading: Option<u32>)
        ensures
            final(self).detector() == (IdleView { platform_idle: reading, ..old(self).detector() }),
            final(self).callbacks() == old(self).callbacks(),
            final(self).last_state() == old(self).last_state(),
    {
        self.detector.set_platform_idle(reading);
    }

    /// Looks at the state and, where it has changed since the last look,
    /// calls every callback, in the order of registration, with the new
    /// state. Tells whether it changed.
    pub fn poll(&mut self) -> (changed: bool)
        requires
            old(self).wf(),
        ensures
            final(self).wf(),
            final(self).callbacks() == old(self).callbacks(),
            final(self).detector() == old(self).detector(),
            exists|now: u128|
                final(self).last_state() == #[trigger] old(self).detector().is_idle(now),
            old(self).detector().platform_idle matches Some(reading) ==> final(self).last_state()
                == spec_is_idle(reading, old(self).detector().idle_threshold),
            old(self).detector().idle_threshold == 0 ==> final(self).last_state(),
            changed == (final(self).last_state() != old(self).last_state()),
            changed ==> forall|k: int|
                0 <= k < final(self).callbacks().len() ==> call_ensures(
                    #[trigger] final(self).callbacks()[k],
                    (final(self).last_state(),),
                    (),
                ),
    {
        let is_idle = self.detector.is_idle();
        let was_idle = self.last_state;
        self.last_state = is_idle;
        assert forall|k: int, state: bool| 0 <= k < self.callbacks().len() implies #[trigger] call_requires(
            self.callbacks()[k],
            (state,),
        ) by {
            assert(self.callbacks()[k] == old(self).callbacks()[k]);
            assert(call_requires(old(self).callbacks()[k], (state,)));
        }
        if is_idle != was_idle {
            let mut i: usize = 0;
            while i < self.callbacks.len()
                invariant
                    i <= self.callbacks.len(),
                    self.wf(),
                    forall|k: int|
                        0 <= k < i ==> call_ensures(
                            #[trigger] self.callbacks()[k],
                            (is_idle,),
                            (),
                        ),
                decreases self.callbacks.len() - i,
            {
                let callback = &self.callbacks[i];
                assert(call_requires(*callback, (is_idle,))) by {
                    assert(*callback == self.callbacks()[i as int]);
                }
                callback(is_idle);
                assert(call_ensures(self.callbacks()[i as int], (is_idle,), ()));
                i += 1;
            }
        }
        is_idle != was_idle
    }

    /// Whether the user is idle.
    pub fn is_idle(&self) -> (r: bool)
        ensures
            exists|now: u128| r == #[trigger] self.detector().is_idle(now),
            self.detector().platform_idle matches Some(reading) ==> r == spec_is_idle(
                reading,
                self.detector().idle_threshold,
            ),
            self.detector().idle_threshold == 0 ==> r,
    {
        self.detector.is_idle()
    }

    /// The idle seconds.
    pub fn get_idle_seconds(&self) -> (r: u32)
        ensures
            exists|now: u128| r == #[trigger] self.detector().idle_seconds(now),
            self.detector().platform_idle matches Some(reading) ==> r == reading,
    {
        self.detector.get_idle_seconds()
    }

    /// Sets the threshold.
    pub fn set_threshold(&mut self, seconds: u32)
        ensures
            final(self).detector() == (IdleView { idle_threshold: seconds, ..old(self).detector() }),
            final(self).callbacks() == old(self).callbacks(),
            final(self).last_state() == old(self).last_state(),
    {
        self.detector.set_threshold(seconds);
    }
}

/// The idle seconds that are assumed where the processor is mostly idle.
pub const IDLE_ESTIMATE_SECONDS: u32 = 60;

/// The length of the first line of a text: up to its first line feed, or
/// all of it.
pub open spec fn spec_line_len(text: Seq<char>) -> int
    decreases text.len(),
{
    if text.len() == 0 || text[0] == '\n' {
        0
    } else {
        1 + spec_line_len(text.drop_first())
    }
}

/// A line without the carriage return that stands before its line feed.
pub open spec fn spec_line_body(line: Seq<char>) -> Seq<char> {
    if line.len() > 0 && line.last() == '\r' {
        line.drop_last()
    } else {
        line
    }
}

/// A counter of the processor's times as it is read: zero where it is no
/// number.
pub open spec fn spec_counter(word: Seq<char>) -> int {
    match spec_parse_u64(word) {
        Some(n) => n as int,
        None => 0,
    }
}

/// Whether a line of processor times reports the processor as idle for
/// more than 95 % of the time: the line begins with `cpu` and a space, and
/// of its numbers for user, nice, system and idle time the last outweighs
/// the others nineteenfold.
pub open spec fn spec_mostly_idle(line: Seq<char>) -> bool {
    let parts = spec_words(line);
    &&& spec_starts_with(line, "cpu "@)
    &&& parts.len() >= 5
    &&& spec_counter(parts[1]) + spec_counter(parts[2]) + spec_counter(parts[3]) + spec_counter(
        parts[4],
    ) > 0
    &&& spec_counter(parts[4]) * 100 > (spec_counter(parts[1]) + spec_counter(parts[2])
        + spec_counter(parts[3]) + spec_counter(parts[4])) * 95
}

/// Whether one of the lines of a text of processor times, from `from` on,
/// reports the processor as mostly idle. A line ends with a line feed; the
/// last line needs none.
pub open spec fn spec_any_line_idle(text: Seq<char>, from: int) -> bool
    decreases text.len() - from,
{
    if from < 0 || from >= text.len() {
        false
    } else {
        let len = spec_line_len(text.skip(from));
        let line = text.subrange(from, from + len);
        if len < 0 || from + len > text.len() {
            false
        } else if from + len < text.len() {
            spec_mostly_idle(spec_line_body(line)) || spec_any_line_idle(text, from + len + 1)
        } else {
            spec_mostly_idle(line)
        }
    }
}

/// The line that begins at `from` reaches as far as there is no line feed.
proof fn lemma_line_len(text: Seq<char>, from: int, to: int)
    requires
        0 <= from <= to <= text.len(),
        forall|k: int| from <= k < to ==> text[k] != '\n',
        to < text.len() ==> text[to] == '\n',
    ensures
        spec_line_len(text.skip(from)) == to - from,
    decreases to - from,
{
    if from < to {
        assert(text.skip(from)[0] == text[from]);
        assert(text.skip(from).drop_first() =~= text.skip(from + 1));
        lemma_line_len(text, from + 1, to);
    } else if to < text.len() {
        assert(text.skip(from)[0] == text[to]);
    }
}

/// A counter of the processor's times: zero where the word is no number.
fn counter(word: &Vec<char>) -> (r: u64)
    ensures
        r == spec_counter(word@),
{
    match parse_u64_chars(word) {
        Some(n) => n,
        None => 0,
    }
}

/// Whether a line of processor times reports the processor as mostly idle.
fn mostly_idle(line: &Vec<char>) -> (r: bool)
    ensures
        r == spec_mostly_idle(line@),
{
    let prefix = chars_of("cpu ");
    if !occurs_at(line, &prefix, 0) {
        return false;
    }
    let parts = split_words(line);
    if parts.len() < 5 {
        return false;
    }
    proof {
        assert(parts.deep_view()[1] =~= parts@[1]@);
        assert(parts.deep_view()[2] =~= parts@[2]@);
        assert(parts.deep_view()[3] =~= parts@[3]@);
        assert(parts.deep_view()[4] =~= parts@[4]@);
    }
    let user: u128 = counter(&parts[1]) as u128;
    let nice: u128 = counter(&parts[2]) as u128;
    let system: u128 = counter(&parts[3]) as u128;
    let idle: u128 = counter(&parts[4]) as u128;
    let total: u128 = user + nice + system + idle;
    total > 0 && idle * 100 > total * 95
}

/// An estimate of the idle seconds from the processor's times as the
/// kernel reports them, one line per processor: a minute where a line for
/// all processors reports more than 95 % idle time, and nothing else.
pub fn proc_idle_estimate(stat: &str) -> (r: Option<u32>)
    ensures
        r == if spec_any_line_idle(stat@, 0) {
            Some(IDLE_ESTIMATE_SECONDS)
        } else {
            None::<u32>
        },
{
    let text = chars_of(stat);
    let mut from: usize = 0;
    while from < text.len()
        invariant
            from <= text.len(),
            text@ == stat@,
            spec_any_line_idle(text@, 0) == spec_any_line_idle(text@, from as int),
        decreases text.len() - from,
    {
        let mut end: usize = from;
        while end < text.len() && text[end] != '\n'
            invariant
                from <= end <= text.len(),
                forall|k: int| from <= k < end ==> text@[k] != '\n',
            decreases text.len() - end,
        {
            end += 1;
        }
        proof {
            lemma_line_len(text@, from as int, end as int);
        }
        if end < text.len() {
            let stop: usize = if end > from && text[end - 1] == '\r' {
                end - 1
            } else {
                end
            };
            let line = slice_chars(&text, from, stop);
            proof {
                let whole = text@.subrange(from as int, end as int);
                if end > from {
                    assert(whole.last() == text@[end - 1]);
                }
                assert(line@ =~= spec_line_body(whole));
            }
            if mostly_idle(&line) {
                return Some(IDLE_ESTIMATE_SECONDS);
            }
            from = end + 1;
        } else {
            let line = slice_chars(&text, from, end);
            if mostly_idle(&line) {
                return Some(IDLE_ESTIMATE_SECONDS);
            }
            from = end;
        }
    }
    None
}

} // verus!
