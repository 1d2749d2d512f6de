//! Abuse limits.
use vstd::prelude::*;

#[allow(unused_imports)]
use crate::ratelimit::{after_attempt, fits};
use crate::server::store::Relay;
#[allow(unused_imports)]
use crate::server::store::World;

verus! {

/// A minute, in milliseconds.
pub const MINUTE: i64 = 60_000;

/// Fifteen minutes.
pub const QUARTER_HOUR: i64 = 900_000;

/// An hour.
pub const HOUR: i64 = 3_600_000;

/// A day.
pub const DAY: i64 = 86_400_000;

/// Wrong codes accepted before the code is burned.
pub const MAX_VERIFY_ATTEMPTS: i64 = 5;

/// Messages that may wait for one account.
pub const MAX_QUEUED_MESSAGES: usize = 10_000;

/// Bytes of messages that may wait for one account.
pub const MAX_QUEUED_BYTES: u128 = 268_435_456;

/// Entries that one account may archive.
pub const MAX_ARCHIVE_ENTRIES: usize = 200_000;

/// Prekeys that one upload may carry.
pub const MAX_PREKEYS_PER_UPLOAD: usize = 200;

/// Bytes of an opaque field.
pub const MAX_FIELD_BYTES: usize = 65_536;

/// Bytes of a display name.
pub const MAX_ALIAS_BYTES: usize = 64;

/// Bytes of an identifier that a client names.
pub const MAX_ID_BYTES: usize = 128;

/// Encrypted envelopes carrying inline images can be several MB.
pub const MAX_BODY_BYTES: usize = 15_728_640;

/// Any other request body.
pub const MAX_SMALL_BODY_BYTES: usize = 262_144;

/// Contact requests one account may send per hour.
pub const MAX_CONTACT_REQUESTS_PER_HOUR: usize = 20;

/// How many lookups an hour may name someone who does not exist.
pub const MAX_UNKNOWN_LOOKUPS_PER_HOUR: usize = 5;

/// Profiles one account may look up per hour.
pub const MAX_PROFILE_LOOKUPS_PER_HOUR: usize = 600;

/// Key bundles one account may fetch per hour.
pub const MAX_BUNDLE_FETCHES_PER_HOUR: usize = 600;

/// Whether a moment can stand for the present: not before the epoch, and with
/// room behind it for the longest time that is ever counted from it.
pub open spec fn is_clock(now: i64) -> bool {
    0 <= now <= i64::MAX - 30 * DAY
}

/// Whether a moment can stand for the present.
pub fn can_be_now(now: i64) -> (yes: bool)
    ensures
        yes == is_clock(now),
{
    0 <= now && now <= i64::MAX - 30 * DAY
}

/// Whether an attempt passes one budget.
pub open spec fn passes(w: World, key: Seq<char>, max: usize, window_ms: i64, now: i64) -> bool {
    fits(w.hits, key, max, window_ms, now)
}

/// The relay once an attempt was judged by one budget.
pub open spec fn judged(w: World, key: Seq<char>, max: usize, window_ms: i64, now: i64) -> World {
    World { hits: after_attempt(w.hits, key, max, window_ms, now), ..w }
}

/// Whether an attempt passes two budgets.
pub open spec fn passes_both(
    w: World,
    first: Seq<char>,
    first_max: usize,
    second: Seq<char>,
    second_max: usize,
    window_ms: i64,
    now: i64,
) -> bool {
    passes(w, first, first_max, window_ms, now) && passes(
        judged(w, first, first_max, window_ms, now),
        second,
        second_max,
        window_ms,
        now,
    )
}

/// The relay once an attempt was judged by two budgets: one that the first
/// refuses does not count against the second.
pub open spec fn judged_by_both(
    w: World,
    first: Seq<char>,
    first_max: usize,
    second: Seq<char>,
    second_max: usize,
    window_ms: i64,
    now: i64,
) -> World {
    let once = judged(w, first, first_max, window_ms, now);
    if passes(w, first, first_max, window_ms, now) {
        judged(once, second, second_max, window_ms, now)
    } else {
        once
    }
}

impl Relay {
    /// Counts an attempt against one budget.
    pub(crate) fn pass(&mut self, key: &str, max: usize, window_ms: i64, now: i64) -> (yes: bool)
        requires
            old(self).wf(),
        ensures
            final(self).wf(),
            yes == passes(old(self)@, key@, max, window_ms, now),
            final(self)@ == judged(old(self)@, key@, max, window_ms, now),
            final(self).journal@ == old(self).journal@,
    {
        self.limits.allow(key, max, window_ms, now)
    }

    /// Counts an attempt against two budgets.
    pub(crate) fn pass_both(
        &mut self,
        first: &str,
        first_max: usize,
        second: &str,
        second_max: usize,
        window_ms: i64,
        now: i64,
    ) -> (yes: bool)
        requires
            old(self).wf(),
        ensures
            final(self).wf(),
            yes == passes_both(
                old(self)@,
                first@,
                first_max,
                second@,
                second_max,
                window_ms,
                now,
            ),
            final(self)@ == judged_by_both(
                old(self)@,
                first@,
                first_max,
                second@,
                second_max,
                window_ms,
                now,
            ),
            final(self).journal@ == old(self).journal@,
    {
        if !self.pass(first, first_max, window_ms, now) {
            return false;
        }
        self.pass(second, second_max, window_ms, now)
    }
}

} // verus!
