//! Sliding-window estimate of the current typing speed.
//!
//! Every keypress is recorded with its instant, in milliseconds of some
//! monotonic clock supplied by the caller. Queries report the speed over the
//! last second; to keep the per-frame cost low, a query recomputes at most
//! once per window and otherwise hands back the cached value.

use vstd::prelude::*;
use std::collections::VecDeque;
use crate::wpm::{spec_wpm_gross, wpm_gross};

verus! {

/// Length of the sliding window, in milliseconds.
pub const WINDOW_MS: u64 = 1000;

/// True when instant `t` lies within one window of the query instant `now`,
/// that is, when `t` is not strictly older than the window.
pub open spec fn in_window(t: u64, now: u64) -> bool {
    now - t <= WINDOW_MS
}

/// The keypress instants of `q` that lie within one window of `now`, in
/// their recording order: what is left once every entry strictly older
/// than the window is purged.
pub open spec fn window_filter(q: Seq<u64>, now: u64) -> Seq<u64>
    decreases q.len(),
{
    if q.len() == 0 {
        q
    } else {
        let rest = window_filter(q.drop_last(), now);
        if in_window(q.last(), now) {
            rest.push(q.last())
        } else {
            rest
        }
    }
}

/// True when the instants of `q` stand in the order they were recorded:
/// nondecreasing from front to back.
pub open spec fn time_ordered(q: Seq<u64>) -> bool {
    forall|i: int, j: int| 0 <= i <= j < q.len() ==> q[i] <= q[j]
}

/// Tracks the instants of recent keypresses and serves a throttled
/// "current speed" reading in centi-WPM.
pub struct LiveWPM {
    /// All moments in which a key was pressed that have not been purged yet.
    keypresses: VecDeque<u64>,
    /// The instant at which the speed was last recomputed.
    last_instant: u64,
    /// The last computed speed.
    last_wpm: u32,
}

impl LiveWPM {
    /// The keypress instants still held, oldest first.
    pub closed spec fn presses(self) -> Seq<u64> {
        self.keypresses@
    }

    /// The instant at which the speed was last recomputed.
    pub closed spec fn last_query(self) -> u64 {
        self.last_instant
    }

    /// The last computed speed, in centi-WPM.
    pub closed spec fn cached(self) -> u32 {
        self.last_wpm
    }

    /// Well-formed: instants are held in recording order.
    pub closed spec fn wf(self) -> bool {
        time_ordered(self.keypresses@)
    }

    /// The latest instant this tracker has seen; callers must never hand in
    /// an earlier "now", which a monotonic clock guarantees.
    pub closed spec fn latest(self) -> int {
        let q = self.keypresses@;
        if q.len() > 0 && q.last() > self.last_instant {
            q.last() as int
        } else {
            self.last_instant as int
        }
    }

    /// A fresh tracker: nothing recorded, speed zero, created at `now_ms`.
    pub fn new(now_ms: u64) -> (r: Self)
        ensures
            r.wf(),
            r.presses() == Seq::<u64>::empty(),
            r.last_query() == now_ms,
            r.cached() == 0,
            r.latest() == now_ms,
    {
        Self { keypresses: VecDeque::with_capacity(20), last_instant: now_ms, last_wpm: 0 }
    }

    /// Registers a keypress at the instant `now_ms`.
    pub fn press(&mut self, now_ms: u64)
        requires
            old(self).wf(),
            now_ms >= old(self).latest(),
        ensures
            final(self).wf(),
            final(self).presses() == old(self).presses().push(now_ms),
            final(self).last_query() == old(self).last_query(),
            final(self).cached() == old(self).cached(),
            final(self).latest() == now_ms,
    {
        proof {
            let q = self.keypresses@;
            assert forall|i: int, j: int|
                0 <= i <= j < q.push(now_ms).len() implies q.push(now_ms)[i] <= q.push(
                now_ms,
            )[j] by {
                if j < q.len() {
                } else if i < q.len() {
                    assert(q[i] <= q[q.len() - 1]);
                }
            }
        }
        self.keypresses.push_back(now_ms);
    }

    /// How many keypress instants are currently held.
    pub fn press_count(&self) -> (n: usize)
        ensures
            n == self.presses().len(),
    {
        self.keypresses.len()
    }

    /// The speed achieved over the last window, in centi-WPM.
    ///
    /// With nothing recorded the speed is zero. If less than one window has
    /// passed since the last recomputation, the cached value is returned
    /// unchanged. Otherwise every entry strictly older than the window is
    /// purged, the speed of the remaining count over one window is computed
    /// with [`crate::wpm::wpm_gross`], and the result is cached.
    pub fn wpm(&mut self, now_ms: u64) -> (r: u32)
        requires
            old(self).wf(),
            now_ms >= old(self).latest(),
        ensures
            final(self).wf(),
            final(self).latest() <= now_ms,
            old(self).presses().len() == 0 ==> r == 0 && *final(self) == *old(self),
            old(self).presses().len() > 0 && now_ms - old(self).last_query() < WINDOW_MS ==> r
                == old(self).cached() && *final(self) == *old(self),
            old(self).presses().len() > 0 && now_ms - old(self).last_query() >= WINDOW_MS ==> {
                &&& final(self).presses() == window_filter(old(self).presses(), now_ms)
                &&& final(self).last_query() == now_ms
                &&& final(self).cached() == spec_wpm_gross(
                    window_filter(old(self).presses(), now_ms).len(),
                    WINDOW_MS as nat,
                )
                &&& r == final(self).cached()
            },
    {
        // no keypresses = no speed
        if self.keypresses.len() == 0 {
            return 0;
        }
        // if the window has not elapsed yet, return the previous result
        if now_ms - self.last_instant < WINDOW_MS {
            return self.last_wpm;
        }
        self.last_instant = now_ms;

        let ghost q0 = self.keypresses@;
        let ghost mut k: int = 0;
        proof {
            assert forall|i: int| 0 <= i < q0.len() implies q0[i] <= now_ms by {
                assert(q0[i] <= q0[q0.len() - 1]);
            }
        }

        // remove entries that exceed the time window
        while self.keypresses.len() > 0 && now_ms - self.keypresses[0] > WINDOW_MS
            invariant
                time_ordered(q0),
                forall|i: int| 0 <= i < q0.len() ==> q0[i] <= now_ms,
                0 <= k <= q0.len(),
                self.keypresses@ == q0.skip(k),
                forall|i: int| 0 <= i < k ==> !in_window(q0[i], now_ms),
                self.last_instant == now_ms,
                self.last_wpm == old(self).last_wpm,
            decreases q0.len() - k,
        {
            self.keypresses.pop_front();
            proof {
                k = k + 1;
                assert(q0.skip(k - 1).drop_first() =~= q0.skip(k));
            }
        }

        proof {
            lemma_window_filter_skips_stale(q0, now_ms, k);
            let q = self.keypresses@;
            assert forall|i: int, j: int| 0 <= i <= j < q.len() implies q[i] <= q[j] by {
                assert(q[i] == q0[k + i]);
                assert(q[j] == q0[k + j]);
            }
        }

        // return the recalculated speed, ignoring errors
        self.last_wpm = wpm_gross(self.keypresses.len(), WINDOW_MS);
        self.last_wpm
    }
}

/// Purging a recording-ordered queue from the front, stopping at the first
/// entry inside the window, removes exactly the entries strictly older than
/// the window: if the first `k` entries are stale and entry `k` (when there
/// is one) is fresh, what is left is the suffix from `k` on.
proof fn lemma_window_filter_skips_stale(q: Seq<u64>, now: u64, k: int)
    requires
        time_ordered(q),
        0 <= k <= q.len(),
        forall|i: int| 0 <= i < k ==> !in_window(q[i], now),
        k < q.len() ==> in_window(q[k], now),
    ensures
        window_filter(q, now) == q.skip(k),
    decreases k,
{
    if k == 0 {
        assert forall|i: int| 0 <= i < q.len() implies in_window(q[i], now) by {
            assert(q[0] <= q[i]);
        }
        lemma_window_filter_all_fresh(q, now);
        assert(q.skip(0) =~= q);
    } else {
        lemma_window_filter_drops_stale_front(q, now);
        let rest = q.drop_first();
        assert forall|i: int| 0 <= i < k - 1 implies !in_window(rest[i], now) by {
            assert(rest[i] == q[i + 1]);
        }
        lemma_window_filter_skips_stale(rest, now, k - 1);
        assert(rest.skip(k - 1) =~= q.skip(k));
    }
}

/// With every entry inside the window, purging removes nothing.
proof fn lemma_window_filter_all_fresh(q: Seq<u64>, now: u64)
    requires
        forall|i: int| 0 <= i < q.len() ==> in_window(q[i], now),
    ensures
        window_filter(q, now) == q,
    decreases q.len(),
{
    if q.len() > 0 {
        lemma_window_filter_all_fresh(q.drop_last(), now);
        assert(q.drop_last().push(q.last()) =~= q);
    }
}

/// A stale front entry does not survive purging.
proof fn lemma_window_filter_drops_stale_front(q: Seq<u64>, now: u64)
    requires
        q.len() > 0,
        !in_window(q[0], now),
    ensures
        window_filter(q, now) == window_filter(q.drop_first(), now),
    decreases q.len(),
{
    if q.len() == 1 {
        assert(q.drop_last() =~= q.drop_first());
    } else {
        let shorter = q.drop_last();
        lemma_window_filter_drops_stale_front(shorter, now);
        assert(shorter.drop_first() =~= q.drop_first().drop_last());
        assert(q.drop_first().last() == q.last());
    }
}

} // verus!
