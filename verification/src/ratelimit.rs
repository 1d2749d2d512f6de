//! In-memory sliding-window rate limiter.
//!
//! Without this, the 6-digit verification code and the login password are
//! brute-forceable, and password hashing turns every login endpoint into a CPU
//! exhaustion vector. In memory on purpose: a restart resetting the counters is
//! acceptable.
use vstd::prelude::*;

use crate::table::{RowTest, Table};
use crate::text::same_text;

verus! {

/// How many keys we tolerate before sweeping the stale ones.
pub const SWEEP_THRESHOLD: usize = 10_000;

/// The attempts of a key that may still count, and the widest window that it was
/// ever judged by: for so long an attempt is remembered.
pub struct Attempts {
    pub times: Vec<i64>,
    pub window_ms: i64,
}

/// The attempts of a key as a plain value.
pub struct AttemptsView {
    pub times: Seq<i64>,
    pub window_ms: i64,
}

impl View for Attempts {
    type V = AttemptsView;

    open spec fn view(&self) -> AttemptsView {
        AttemptsView { times: self.times@, window_ms: self.window_ms }
    }
}

/// The attempts of each key.
pub struct RateLimiter {
    pub hits: Table<String, Attempts>,
}

/// Whether an attempt at `at` still counts at `now`.
pub open spec fn counts(at: i64, window_ms: i64, now: i64) -> bool {
    now - at < window_ms
}

/// The attempts that still count.
pub open spec fn recent(times: Seq<i64>, window_ms: i64, now: i64) -> Seq<i64> {
    times.filter(|at: i64| counts(at, window_ms, now))
}

/// Whether no attempt of a key counts any more, by the widest window it was ever
/// judged by.
pub open spec fn is_stale(row: AttemptsView, now: i64) -> bool {
    recent(row.times, row.window_ms, now).len() == 0
}

/// The keys that are not stale, and the one that is to be judged.
pub open spec fn swept(
    hits: Map<Seq<char>, AttemptsView>,
    key: Seq<char>,
    now: i64,
) -> Map<Seq<char>, AttemptsView> {
    Map::new(
        |k: Seq<char>| hits.contains_key(k) && (k == key || !is_stale(hits[k], now)),
        |k: Seq<char>| hits[k],
    )
}

/// What is left when an attempt of `key` is judged: stale keys go once there are
/// too many keys.
pub open spec fn tidied(
    hits: Map<Seq<char>, AttemptsView>,
    key: Seq<char>,
    now: i64,
) -> Map<Seq<char>, AttemptsView> {
    if hits.dom().len() > SWEEP_THRESHOLD {
        swept(hits, key, now)
    } else {
        hits
    }
}

/// What is on record of a key: nothing of one that was never seen.
pub open spec fn record_of(hits: Map<Seq<char>, AttemptsView>, key: Seq<char>) -> AttemptsView {
    if hits.contains_key(key) {
        hits[key]
    } else {
        AttemptsView { times: Seq::empty(), window_ms: i64::MIN }
    }
}

/// The attempts of `key` that still count.
pub open spec fn recent_of(
    hits: Map<Seq<char>, AttemptsView>,
    key: Seq<char>,
    window_ms: i64,
    now: i64,
) -> Seq<i64> {
    recent(record_of(hits, key).times, window_ms, now)
}

/// Whether one more attempt fits the budget.
pub open spec fn fits(
    hits: Map<Seq<char>, AttemptsView>,
    key: Seq<char>,
    max: usize,
    window_ms: i64,
    now: i64,
) -> bool {
    recent_of(hits, key, window_ms, now).len() < max
}

/// The wider of two windows.
pub open spec fn wider(a: i64, b: i64) -> i64 {
    if a < b {
        b
    } else {
        a
    }
}

/// The counters after an attempt: it is recorded where it fits the budget.
pub open spec fn after_attempt(
    hits: Map<Seq<char>, AttemptsView>,
    key: Seq<char>,
    max: usize,
    window_ms: i64,
    now: i64,
) -> Map<Seq<char>, AttemptsView> {
    let row = record_of(hits, key);
    let widest = wider(row.window_ms, window_ms);
    let times = recent(row.times, widest, now);
    tidied(hits, key, now).insert(
        key,
        AttemptsView {
            times: if fits(hits, key, max, window_ms, now) {
                times.push(now)
            } else {
                times
            },
            window_ms: widest,
        },
    )
}

/// The attempts of `times` that still count.
fn keep_recent(times: &Vec<i64>, window_ms: i64, now: i64) -> (kept: Vec<i64>)
    ensures
        kept@ == recent(times@, window_ms, now),
{
    let mut kept: Vec<i64> = Vec::new();
    let mut i: usize = 0;
    let ghost pred = |at: i64| counts(at, window_ms, now);
    assert(times@.take(0).filter(pred) =~= Seq::<i64>::empty()) by {
        reveal(Seq::filter);
    }
    while i < times.len()
        invariant
            i <= times@.len(),
            pred == (|at: i64| counts(at, window_ms, now)),
            kept@ == times@.take(i as int).filter(pred),
        decreases times@.len() - i,
    {
        let at: i64 = times[i];
        proof {
            reveal(Seq::filter);
            assert(times@.take(i + 1).drop_last() =~= times@.take(i as int));
            assert(times@.take(i + 1).last() == at);
        }
        if (now as i128) - (at as i128) < window_ms as i128 {
            kept.push(at);
        }
        i = i + 1;
    }
    assert(times@.take(times@.len() as int) =~= times@);
    kept
}

/// Singles out the stale keys, but for the one that is to be judged.
struct Stale<'a> {
    judged: &'a str,
    now: i64,
}

impl<'a> RowTest<String, Attempts> for Stale<'a> {
    closed spec fn holds(&self, key: Seq<char>, row: AttemptsView) -> bool {
        key != self.judged@ && is_stale(row, self.now)
    }

    fn test(&self, key: &String, row: &Attempts) -> (yes: bool) {
        !same_text(key, self.judged) && keep_recent(&row.times, row.window_ms, self.now).len() == 0
    }
}

impl RateLimiter {
    /// The recorded attempts of each key.
    pub open spec fn view(&self) -> Map<Seq<char>, AttemptsView> {
        self.hits@
    }

    /// Whether no key is recorded twice.
    pub open spec fn wf(&self) -> bool {
        self.hits.wf()
    }

    /// A limiter that has seen nothing.
    pub fn new() -> (limiter: Self)
        ensures
            limiter.wf(),
            limiter@ == Map::<Seq<char>, AttemptsView>::empty(),
    {
        let limiter = RateLimiter { hits: Table::new() };
        assert(limiter@ =~= Map::<Seq<char>, AttemptsView>::empty());
        limiter
    }

    /// Records an attempt for `key`, returning false when `max` attempts
    /// already happened within `window_ms`.
    pub fn allow(&mut self, key: &str, max: usize, window_ms: i64, now: i64) -> (allowed: bool)
        requires
            old(self).wf(),
        ensures
            final(self).wf(),
            allowed == fits(old(self)@, key@, max, window_ms, now),
            final(self)@ == after_attempt(old(self)@, key@, max, window_ms, now),
    {
        let ghost before = self@;
        let count = self.hits.len();
        proof {
            assert(before.dom() =~= self.hits@.dom());
        }
        if count > SWEEP_THRESHOLD {
            let stale = Stale { judged: key, now };
            self.hits.remove_where(&stale);
            proof {
                assert(self@ =~= swept(before, key@, now));
            }
        }
        let ghost tidy = self@;
        let name = key.to_string();
        let (mut times, widest, counted): (Vec<i64>, i64, usize) = match self.hits.get(&name) {
            Some(row) => {
                let widest: i64 = if row.window_ms < window_ms {
                    window_ms
                } else {
                    row.window_ms
                };
                (
                    keep_recent(&row.times, widest, now),
                    widest,
                    keep_recent(&row.times, window_ms, now).len(),
                )
            },
            None => {
                let none: Vec<i64> = Vec::new();
                proof {
                    reveal(Seq::filter);
                    assert(recent(Seq::<i64>::empty(), window_ms, now) =~= Seq::<i64>::empty());
                    assert(none@ =~= Seq::<i64>::empty());
                }
                (none, window_ms, 0)
            },
        };
        assert(tidy == tidied(before, key@, now));
        assert(record_of(tidy, key@) == record_of(before, key@));
        let allowed = counted < max;
        if allowed {
            times.push(now);
        }
        let row = Attempts { times, window_ms: widest };
        let ghost stored = row@;
        self.hits.put(name, row);
        assert(self@ =~= tidy.insert(key@, stored));
        allowed
    }

    /// Clears the counters for `key` (e.g. after a successful login).
    pub fn reset(&mut self, key: &str)
        requires
            old(self).wf(),
        ensures
            final(self).wf(),
            final(self)@ == old(self)@.remove(key@),
    {
        let ghost before = self@;
        let name = key.to_string();
        self.hits.remove(&name);
        assert(self@ =~= before.remove(key@));
    }
}

/// What counts by a window now counts by a wider one earlier.
proof fn lemma_recent_twice(times: Seq<i64>, wide: i64, earlier: i64, window_ms: i64, now: i64)
    requires
        window_ms <= wide,
        earlier <= now,
    ensures
        recent(recent(times, wide, earlier), window_ms, now) == recent(times, window_ms, now),
    decreases times.len(),
{
    reveal(Seq::filter);
    if times.len() > 0 {
        lemma_recent_twice(times.drop_last(), wide, earlier, window_ms, now);
        let front = recent(times.drop_last(), wide, earlier);
        if counts(times.last(), wide, earlier) {
            assert(front.push(times.last()).drop_last() =~= front);
        }
    }
}

/// One more attempt at the end.
proof fn lemma_recent_push(times: Seq<i64>, at: i64, window_ms: i64, now: i64)
    ensures
        recent(times.push(at), window_ms, now) == (if counts(at, window_ms, now) {
            recent(times, window_ms, now).push(at)
        } else {
            recent(times, window_ms, now)
        }),
{
    reveal(Seq::filter);
    assert(times.push(at).drop_last() =~= times);
}

/// Nothing is recent of nothing.
proof fn lemma_recent_of_nothing(window_ms: i64, now: i64)
    ensures
        recent(Seq::<i64>::empty(), window_ms, now) == Seq::<i64>::empty(),
{
    reveal(Seq::filter);
}

/// Sweeping takes no attempt that counts: a key is judged by any window that it
/// was judged by before as if nothing had been swept.
proof fn lemma_tidied(
    hits: Map<Seq<char>, AttemptsView>,
    judged: Seq<char>,
    swept_at: i64,
    key: Seq<char>,
    window_ms: i64,
    now: i64,
)
    requires
        hits.contains_key(key) ==> window_ms <= hits[key].window_ms,
        swept_at <= now,
    ensures
        recent_of(tidied(hits, judged, swept_at), key, window_ms, now) == recent_of(
            hits,
            key,
            window_ms,
            now,
        ),
{
    if hits.contains_key(key) {
        let row = hits[key];
        lemma_recent_twice(row.times, row.window_ms, swept_at, window_ms, now);
        if is_stale(row, swept_at) {
            assert(recent(row.times, row.window_ms, swept_at) =~= Seq::<i64>::empty());
        }
    }
    lemma_recent_of_nothing(window_ms, now);
}

/// However many attempts a key makes, no more than `max` of those that count
/// within a window are ever on record once an attempt has been judged by it,
/// and an attempt that was let through is on record.
pub proof fn the_budget_is_never_exceeded(
    hits: Map<Seq<char>, AttemptsView>,
    key: Seq<char>,
    max: usize,
    window_ms: i64,
    now: i64,
)
    requires
        window_ms > 0,
        recent_of(hits, key, window_ms, now).len() <= max,
    ensures
        recent_of(after_attempt(hits, key, max, window_ms, now), key, window_ms, now).len() <= max,
        recent_of(after_attempt(hits, key, max, window_ms, now), key, window_ms, now) == (if fits(
            hits,
            key,
            max,
            window_ms,
            now,
        ) {
            recent_of(hits, key, window_ms, now).push(now)
        } else {
            recent_of(hits, key, window_ms, now)
        }),
{
    let row = record_of(hits, key);
    let widest = wider(row.window_ms, window_ms);
    lemma_recent_twice(row.times, widest, now, window_ms, now);
    lemma_recent_push(recent(row.times, widest, now), now, window_ms, now);
}

/// Keys are independent: an attempt by one key, by whatever window and however
/// many keys there are, changes nothing about how another is judged from then on,
/// by any window that it was judged by before.
pub proof fn keys_are_independent(
    hits: Map<Seq<char>, AttemptsView>,
    key: Seq<char>,
    max: usize,
    window_ms: i64,
    now: i64,
    other: Seq<char>,
    other_max: usize,
    other_window_ms: i64,
    later: i64,
)
    requires
        key != other,
        now <= later,
        hits.contains_key(other) ==> other_window_ms <= hits[other].window_ms,
    ensures
        fits(
            after_attempt(hits, key, max, window_ms, now),
            other,
            other_max,
            other_window_ms,
            later,
        ) == fits(hits, other, other_max, other_window_ms, later),
{
    let after = after_attempt(hits, key, max, window_ms, now);
    lemma_tidied(hits, key, now, other, other_window_ms, later);
    assert(record_of(after, other) == record_of(tidied(hits, key, now), other));
}

/// Once the window has gone by since the last attempt on record, a key is let
/// through again, whatever it did before.
pub proof fn a_window_without_attempts_clears_the_way(
    hits: Map<Seq<char>, AttemptsView>,
    key: Seq<char>,
    max: usize,
    window_ms: i64,
    now: i64,
)
    requires
        max > 0,
        hits.contains_key(key) ==> forall|i: int|
            0 <= i < hits[key].times.len() ==> !counts(
                #[trigger] hits[key].times[i],
                window_ms,
                now,
            ),
    ensures
        fits(hits, key, max, window_ms, now),
{
    if hits.contains_key(key) {
        lemma_none_recent(hits[key].times, window_ms, now);
    }
    lemma_recent_of_nothing(window_ms, now);
}

/// A call on a limiter.
pub enum LimiterCall {
    Allow { key: Seq<char>, max: usize, window_ms: i64, now: i64 },
    Reset { key: Seq<char> },
}

/// The counters after a run of calls on a new limiter.
pub open spec fn after_run(run: Seq<LimiterCall>) -> Map<Seq<char>, AttemptsView>
    decreases run.len(),
{
    if run.len() == 0 {
        Map::empty()
    } else {
        let before = after_run(run.drop_last());
        match run.last() {
            LimiterCall::Allow { key, max, window_ms, now } => after_attempt(
                before,
                key,
                max,
                window_ms,
                now,
            ),
            LimiterCall::Reset { key } => before.remove(key),
        }
    }
}

/// When the attempts of a key were let through, in a run of calls on a new limiter,
/// since it was last reset.
pub open spec fn grants(run: Seq<LimiterCall>, key: Seq<char>) -> Seq<i64>
    decreases run.len(),
{
    if run.len() == 0 {
        Seq::empty()
    } else {
        let before = grants(run.drop_last(), key);
        match run.last() {
            LimiterCall::Allow { key: k, max, window_ms, now } => if k == key && fits(
                after_run(run.drop_last()),
                k,
                max,
                window_ms,
                now,
            ) {
                before.push(now)
            } else {
                before
            },
            LimiterCall::Reset { key: k } => if k == key {
                Seq::empty()
            } else {
                before
            },
        }
    }
}

/// Whether time never runs backwards in a run, up to a moment.
pub open spec fn in_time(run: Seq<LimiterCall>, now: i64) -> bool
    decreases run.len(),
{
    run.len() == 0 || match run.last() {
        LimiterCall::Allow { now: at, .. } => at <= now && in_time(run.drop_last(), at),
        LimiterCall::Reset { .. } => in_time(run.drop_last(), now),
    }
}

/// Whether a key is judged by one window throughout a run.
pub open spec fn one_window(run: Seq<LimiterCall>, key: Seq<char>, window_ms: i64) -> bool {
    forall|i: int|
        0 <= i < run.len() ==> (#[trigger] run[i] matches LimiterCall::Allow {
            key: k,
            window_ms: w,
            ..
        } ==> k == key ==> w == window_ms)
}

/// What is on record of a key that counts is what was granted that counts.
proof fn lemma_run(run: Seq<LimiterCall>, key: Seq<char>, window_ms: i64, now: i64)
    requires
        in_time(run, now),
        one_window(run, key, window_ms),
    ensures
        recent_of(after_run(run), key, window_ms, now) == recent(
            grants(run, key),
            window_ms,
            now,
        ),
        after_run(run).contains_key(key) ==> after_run(run)[key].window_ms == window_ms,
    decreases run.len(),
{
    lemma_recent_of_nothing(window_ms, now);
    if run.len() > 0 {
        let rest = run.drop_last();
        let before = after_run(rest);
        assert(one_window(rest, key, window_ms)) by {
            assert forall|i: int| 0 <= i < rest.len() implies (#[trigger] rest[i] matches
                LimiterCall::Allow { key: k, window_ms: w, .. } ==> k == key ==> w == window_ms) by {
                assert(rest[i] == run[i]);
            }
        }
        match run.last() {
            LimiterCall::Allow { key: k, max, window_ms: w, now: at } => {
                lemma_in_time_later(rest, at, now);
                lemma_run(rest, key, window_ms, now);
                lemma_tidied(before, k, at, key, window_ms, now);
                if k == key {
                    assert(run[run.len() - 1] == run.last());
                    assert(w == window_ms);
                    let row = record_of(before, key);
                    lemma_recent_twice(row.times, window_ms, at, window_ms, now);
                    lemma_recent_push(recent(row.times, window_ms, at), at, window_ms, now);
                    lemma_recent_push(grants(rest, key), at, window_ms, now);
                } else {
                    assert(record_of(after_run(run), key) == record_of(tidied(before, k, at), key));
                }
            },
            LimiterCall::Reset { key: k } => {
                lemma_run(rest, key, window_ms, now);
            },
        }
    }
}

proof fn lemma_in_time_later(run: Seq<LimiterCall>, now: i64, later: i64)
    requires
        in_time(run, now),
        now <= later,
    ensures
        in_time(run, later),
    decreases run.len(),
{
    if run.len() > 0 {
        match run.last() {
            LimiterCall::Allow { .. } => {},
            LimiterCall::Reset { .. } => {
                lemma_in_time_later(run.drop_last(), now, later);
            },
        }
    }
}

/// After any run of calls in which time does not run backwards and a key is judged
/// by one window, whatever other keys do, an attempt of the key is let through
/// exactly where fewer than `max` of those that were let through since its last
/// reset lie within the window.
pub proof fn granted_within_the_budget_and_only_there(
    run: Seq<LimiterCall>,
    key: Seq<char>,
    max: usize,
    window_ms: i64,
    now: i64,
)
    requires
        in_time(run, now),
        one_window(run, key, window_ms),
    ensures
        fits(after_run(run), key, max, window_ms, now) == (recent(
            grants(run, key),
            window_ms,
            now,
        ).len() < max),
{
    lemma_run(run, key, window_ms, now);
}

proof fn lemma_none_recent(times: Seq<i64>, window_ms: i64, now: i64)
    requires
        forall|i: int| 0 <= i < times.len() ==> !counts(#[trigger] times[i], window_ms, now),
    ensures
        recent(times, window_ms, now).len() == 0,
    decreases times.len(),
{
    reveal(Seq::filter);
    if times.len() > 0 {
        assert forall|i: int| 0 <= i < times.drop_last().len() implies !counts(
            #[trigger] times.drop_last()[i],
            window_ms,
            now,
        ) by {
            assert(times.drop_last()[i] == times[i]);
        }
        lemma_none_recent(times.drop_last(), window_ms, now);
    }
}

/// An attempt counts until the window has gone by, and the attempts that count keep
/// their order.
pub proof fn an_attempt_counts_for_its_window(times: Seq<i64>, at: i64, window_ms: i64, now: i64)
    ensures
        now < at + window_ms ==> recent(times.push(at), window_ms, now) == recent(
            times,
            window_ms,
            now,
        ).push(at),
        now >= at + window_ms ==> recent(times.push(at), window_ms, now) == recent(
            times,
            window_ms,
            now,
        ),
        recent(Seq::empty(), window_ms, now).len() == 0,
{
    lemma_recent_push(times, at, window_ms, now);
    lemma_recent_of_nothing(window_ms, now);
}

/// An attempt that is let through is on record from then on, and stays there while
/// other keys are tried.
pub proof fn an_attempt_goes_on_record(
    hits: Map<Seq<char>, AttemptsView>,
    key: Seq<char>,
    max: usize,
    window_ms: i64,
    now: i64,
    other: Seq<char>,
    other_max: usize,
    other_window_ms: i64,
)
    requires
        window_ms > 0,
        fits(hits, key, max, window_ms, now),
        other != key,
    ensures
        ({
            let once = after_attempt(hits, key, max, window_ms, now);
            let twice = after_attempt(once, other, other_max, other_window_ms, now);
            &&& recent_of(once, key, window_ms, now) == recent_of(hits, key, window_ms, now).push(
                now,
            )
            &&& recent_of(twice, key, window_ms, now) == recent_of(hits, key, window_ms, now).push(
                now,
            )
        }),
{
    let once = after_attempt(hits, key, max, window_ms, now);
    let row = record_of(hits, key);
    let widest = wider(row.window_ms, window_ms);
    let times = recent(row.times, widest, now);
    lemma_recent_twice(row.times, widest, now, window_ms, now);
    lemma_recent_push(times, now, window_ms, now);
    lemma_recent_push(times, now, widest, now);
    assert(!is_stale(once[key], now));
    assert(once.contains_key(key));
    assert(record_of(after_attempt(once, other, other_max, other_window_ms, now), key) == once[key]);
}

} // verus!
