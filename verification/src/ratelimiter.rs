use vstd::prelude::*;

verus! {

/// Length of the admission window in milliseconds.
pub const WINDOW_MS: u64 = 60000;

/// The timestamp `t` has aged out of the window ending at `now`.
pub open spec fn too_old(t: u64, now: u64) -> bool {
    t + WINDOW_MS < now
}

/// A time-ascending sequence of timestamps.
pub open spec fn sorted_stamps(s: Seq<u64>) -> bool {
    forall|i: int, j: int| 0 <= i <= j < s.len() ==> s[i] <= s[j]
}

/// The history with expired timestamps evicted from its front.
pub open spec fn evicted(h: Seq<u64>, now: u64) -> Seq<u64>
    decreases h.len(),
{
    if h.len() > 0 && too_old(h[0], now) {
        evicted(h.skip(1), now)
    } else {
        h
    }
}

/// One admission decision: the live window must be below the cap.
pub open spec fn admit_ok(h: Seq<u64>, now: u64, max: nat) -> bool {
    evicted(h, now).len() < max
}

/// The history after one check at `now`: expired entries gone, the new
/// arrival recorded exactly when it was admitted.
pub open spec fn next_hist(h: Seq<u64>, now: u64, max: nat) -> Seq<u64> {
    if admit_ok(h, now, max) {
        evicted(h, now).push(now)
    } else {
        evicted(h, now)
    }
}

/// Eviction only ever removes a prefix: what remains is a suffix.
pub proof fn lemma_evicted_suffix(h: Seq<u64>, now: u64)
    ensures
        exists|m: int| 0 <= m <= h.len() && evicted(h, now) == h.skip(m),
    decreases h.len(),
{
    if h.len() > 0 && too_old(h[0], now) {
        lemma_evicted_suffix(h.skip(1), now);
        let m = choose|m: int| 0 <= m <= h.skip(1).len() && evicted(h.skip(1), now) == h.skip(
            1,
        ).skip(m);
        assert(h.skip(1).skip(m) =~= h.skip(m + 1));
        assert(evicted(h, now) == h.skip(m + 1));
    } else {
        assert(h.skip(0) =~= h);
        assert(evicted(h, now) == h.skip(0));
    }
}

/// Evicting for a later instant evicts at least as much.
pub proof fn lemma_evicted_monotone(h: Seq<u64>, now1: u64, now2: u64)
    requires
        now1 <= now2,
    ensures
        evicted(h, now2) == evicted(evicted(h, now1), now2),
    decreases h.len(),
{
    if h.len() > 0 && too_old(h[0], now1) {
        lemma_evicted_monotone(h.skip(1), now1, now2);
    }
}

/// The record of repeated checks for one fresh address: the history left
/// after checking at each time in turn, oldest first.
pub open spec fn run_hist(times: Seq<u64>, max: nat) -> Seq<u64>
    decreases times.len(),
{
    if times.len() == 0 {
        Seq::<u64>::empty()
    } else {
        next_hist(run_hist(times.drop_last(), max), times.last(), max)
    }
}

/// While every check of a run happens within one window span, nothing is
/// evicted and every check is admitted, so the history is the run itself.
pub proof fn lemma_run_within_window(times: Seq<u64>, max: nat)
    requires
        times.len() <= max,
        sorted_stamps(times),
        times.len() > 0 ==> times.last() <= times.first() + WINDOW_MS,
    ensures
        run_hist(times, max) == times,
    decreases times.len(),
{
    if times.len() > 0 {
        let t = times.drop_last();
        assert(sorted_stamps(t));
        if t.len() > 0 {
            assert(t.last() <= times.last());
            assert(t.first() == times.first());
        }
        lemma_run_within_window(t, max);
        if t.len() > 0 {
            assert(!too_old(t[0], times.last()));
            assert(evicted(t, times.last()) == t);
        }
        assert(admit_ok(t, times.last(), max));
        assert(run_hist(times, max) =~= t.push(times.last()));
        assert(t.push(times.last()) =~= times);
    }
}

/// Over any span of one window, checks after the cap-th are rejected: with
/// `max + 1` checks for one fresh address inside a single window, the last
/// one is refused.
pub proof fn lemma_window_cap(times: Seq<u64>, max: nat)
    requires
        times.len() == max + 1,
        sorted_stamps(times),
        times.last() <= times.first() + WINDOW_MS,
    ensures
        !admit_ok(run_hist(times.drop_last(), max), times.last(), max),
{
    let t = times.drop_last();
    assert(sorted_stamps(t));
    if t.len() > 0 {
        assert(t.first() == times.first());
        assert(t.last() <= times.last());
        assert(t.last() <= t.first() + WINDOW_MS);
    }
    lemma_run_within_window(t, max);
    if t.len() > 0 {
        assert(!too_old(t[0], times.last()));
    }
    assert(evicted(t, times.last()) == t);
}

/// When exactly the oldest live timestamp ages past the window, the live
/// count drops by one, freeing a slot.
pub proof fn lemma_aging_frees_slot(h: Seq<u64>, now1: u64, now2: u64)
    requires
        sorted_stamps(h),
        now1 <= now2,
        evicted(h, now1).len() > 0,
        too_old(evicted(h, now1)[0], now2),
        forall|k: int| 1 <= k < evicted(h, now1).len() ==> !too_old(evicted(h, now1)[k], now2),
    ensures
        evicted(h, now2) == evicted(h, now1).skip(1),
        evicted(h, now2).len() == evicted(h, now1).len() - 1,
{
    lemma_evicted_monotone(h, now1, now2);
    let e = evicted(h, now1);
    if e.len() > 1 {
        assert(e.skip(1)[0] == e[1]);
        assert(!too_old(e.skip(1)[0], now2));
    }
    assert(evicted(e, now2) == evicted(e.skip(1), now2));
    assert(evicted(e.skip(1), now2) == e.skip(1));
}

/// The recorded admission timestamps of one source address.
pub struct AddrHistory {
    pub addr: u64,
    pub stamps: Vec<u64>,
}

/// No two entries record the same address.
pub open spec fn keys_unique(entries: Seq<AddrHistory>) -> bool {
    forall|i: int, j: int|
        0 <= i < j < entries.len() ==> (#[trigger] entries[i]).addr != (
        #[trigger] entries[j]).addr
}

/// Whether some entry records `addr`.
pub open spec fn seq_has_addr(entries: Seq<AddrHistory>, addr: u64) -> bool {
    exists|i: int| 0 <= i < entries.len() && (#[trigger] entries[i]).addr == addr
}

/// The timestamps recorded for `addr`, oldest first; empty when absent.
pub open spec fn seq_history(entries: Seq<AddrHistory>, addr: u64) -> Seq<u64> {
    if seq_has_addr(entries, addr) {
        let i = choose|i: int| 0 <= i < entries.len() && (#[trigger] entries[i]).addr == addr;
        entries[i].stamps@
    } else {
        Seq::<u64>::empty()
    }
}

proof fn lemma_seq_history_at(entries: Seq<AddrHistory>, addr: u64, i: int)
    requires
        keys_unique(entries),
        0 <= i < entries.len(),
        entries[i].addr == addr,
    ensures
        seq_history(entries, addr) == entries[i].stamps@,
{
    assert(seq_has_addr(entries, addr));
    let j = choose|j: int| 0 <= j < entries.len() && (#[trigger] entries[j]).addr == addr;
    if i < j {
        assert(entries[i].addr != entries[j].addr);
    } else if j < i {
        assert(entries[j].addr != entries[i].addr);
    }
}

/// `e` stood in `orig` and does not record `addr`.
spec fn is_orig_non_addr(e: AddrHistory, orig: Seq<AddrHistory>, addr: u64) -> bool {
    exists|j: int| 0 <= j < orig.len() && (#[trigger] orig[j]) == e && orig[j].addr != addr
}

proof fn lemma_seq_history_absent(entries: Seq<AddrHistory>, addr: u64)
    requires
        forall|j: int| 0 <= j < entries.len() ==> (#[trigger] entries[j]).addr != addr,
    ensures
        seq_history(entries, addr) == Seq::<u64>::empty(),
{
    assert(!seq_has_addr(entries, addr));
}

/// Tracks recent connection timestamps per source address and answers
/// admit or reject for each new arrival. Shared by every connection
/// handler; the surrounding program serialises access to it.
pub struct RateLimiter {
    pub entries: Vec<AddrHistory>,
    pub max_per_minute: usize,
    pub latest: u64,
}

impl RateLimiter {
    /// Well-formed: one entry per address, each history time-ascending,
    /// and no recorded time after the newest check.
    pub open spec fn wf(self) -> bool {
        &&& keys_unique(self.entries@)
        &&& forall|i: int|
            0 <= i < self.entries@.len() ==> sorted_stamps(
                (#[trigger] self.entries@[i]).stamps@,
            )
        &&& forall|i: int, k: int|
            0 <= i < self.entries@.len() && 0 <= k < self.entries@[i].stamps@.len()
                ==> #[trigger] self.entries@[i].stamps@[k] <= self.latest
    }

    /// The admission timestamps recorded for `addr`, oldest first.
    pub open spec fn history(self, addr: u64) -> Seq<u64> {
        seq_history(self.entries@, addr)
    }

    /// An empty limiter with the given per-minute cap.
    pub fn new(max_per_minute: usize) -> (r: RateLimiter)
        ensures
            r.wf(),
            r.max_per_minute == max_per_minute,
            r.latest == 0,
            forall|a: u64| r.history(a) == Seq::<u64>::empty(),
    {
        RateLimiter { entries: Vec::new(), max_per_minute, latest: 0 }
    }

    /// One admission check at time `now` for `addr`: evicts expired
    /// timestamps from the front of that address's history, rejects without
    /// recording when the cap is reached, otherwise records the arrival.
    /// `now` must not precede the previous check.
    pub fn check_and_add(&mut self, addr: u64, now: u64) -> (r: bool)
        requires
            old(self).wf(),
            now >= old(self).latest,
        ensures
            final(self).wf(),
            final(self).max_per_minute == old(self).max_per_minute,
            final(self).latest == now,
            r == admit_ok(old(self).history(addr), now, old(self).max_per_minute as nat),
            final(self).history(addr) == next_hist(
                old(self).history(addr),
                now,
                old(self).max_per_minute as nat,
            ),
            forall|a: u64| a != addr ==> final(self).history(a) == old(self).history(a),
    {
        let ghost orig = self.entries@;
        let n = self.entries.len();
        let mut i: usize = 0;
        while i < n && self.entries[i].addr != addr
            invariant
                i <= n,
                self.entries@ == orig,
                n == orig.len(),
                forall|j: int| 0 <= j < i ==> orig[j].addr != addr,
            decreases n - i,
        {
            i = i + 1;
        }
        let mut entry: AddrHistory;
        if i < n {
            entry = self.entries.swap_remove(i);
            proof {
                lemma_seq_history_at(orig, addr, i as int);
            }
        } else {
            entry = AddrHistory { addr, stamps: Vec::new() };
            proof {
                lemma_seq_history_absent(orig, addr);
            }
        }
        let ghost mid = self.entries@;
        let ghost h0 = entry.stamps@;
        assert(h0 == old(self).history(addr));
        assert(sorted_stamps(h0) && forall|k: int| 0 <= k < h0.len() ==> h0[k] <= now);
        while entry.stamps.len() > 0 && is_expired(entry.stamps[0], now)
            invariant
                entry.addr == addr,
                evicted(h0, now) == evicted(entry.stamps@, now),
                sorted_stamps(entry.stamps@),
                forall|k: int| 0 <= k < entry.stamps@.len() ==> entry.stamps@[k] <= now,
            decreases entry.stamps@.len(),
        {
            let ghost s = entry.stamps@;
            entry.stamps.remove(0);
            proof {
                assert(entry.stamps@ =~= s.skip(1));
            }
        }
        assert(evicted(h0, now) == entry.stamps@);
        let admitted = entry.stamps.len() < self.max_per_minute;
        if admitted {
            entry.stamps.push(now);
        }
        self.entries.push(entry);
        self.latest = now;
        proof {
            let fin = self.entries@;
            let last = fin.len() - 1;
            assert(fin[last].addr == addr);
            // every earlier slot of the final vector held its value before
            // the call, and none of them records `addr`
            assert forall|k: int| 0 <= k < last implies is_orig_non_addr(
                #[trigger] fin[k],
                orig,
                addr,
            ) by {
                if i < n {
                    if k == i {
                        assert(fin[k] == orig[n - 1]);
                        assert(orig[n - 1].addr != addr || n - 1 == i);
                    } else {
                        assert(fin[k] == orig[k]);
                        assert(orig[k].addr != addr) by {
                            if (k as int) < i as int {
                            } else {
                                assert(orig[i as int].addr == addr);
                            }
                        }
                    }
                } else {
                    assert(fin[k] == orig[k]);
                }
            }
            assert(keys_unique(fin)) by {
                assert forall|p: int, q: int|
                    0 <= p < q < fin.len() implies (#[trigger] fin[p]).addr != (
                #[trigger] fin[q]).addr by {
                    if q == last {
                        let j = choose|j: int|
                            0 <= j < orig.len() && (#[trigger] orig[j]) == fin[p] && orig[j].addr != addr;
                        assert(fin[p].addr != addr);
                    } else {
                        let jp = choose|j: int|
                            0 <= j < orig.len() && (#[trigger] orig[j]) == fin[p] && orig[j].addr != addr;
                        let jq = choose|j: int|
                            0 <= j < orig.len() && (#[trigger] orig[j]) == fin[q] && orig[j].addr != addr;
                        if i < n {
                            // positions below `last` map injectively into the
                            // vector as it stood before the call
                            let mp: int = if p == i { n - 1 } else { p };
                            let mq: int = if q == i { n - 1 } else { q };
                            assert(fin[p] == orig[mp]);
                            assert(fin[q] == orig[mq]);
                            assert(mp != mq);
                            if mp < mq {
                                assert(orig[mp].addr != orig[mq].addr);
                            } else {
                                assert(orig[mq].addr != orig[mp].addr);
                            }
                        } else {
                            assert(fin[p] == orig[p] && fin[q] == orig[q]);
                        }
                    }
                }
            }
            lemma_seq_history_at(fin, addr, last);
            assert(self.history(addr) == next_hist(h0, now, old(self).max_per_minute as nat));
            // other addresses keep their history
            assert forall|a: u64| a != addr implies seq_history(fin, a) == seq_history(
                orig,
                a,
            ) by {
                if seq_has_addr(orig, a) {
                    let j = choose|j: int|
                        0 <= j < orig.len() && (#[trigger] orig[j]).addr == a;
                    lemma_seq_history_at(orig, a, j);
                    if i < n {
                        assert(j != i);
                        if j == n - 1 {
                            assert(fin[i as int] == orig[n - 1]);
                            lemma_seq_history_at(fin, a, i as int);
                        } else {
                            assert(fin[j] == orig[j]);
                            lemma_seq_history_at(fin, a, j);
                        }
                    } else {
                        assert(fin[j] == orig[j]);
                        lemma_seq_history_at(fin, a, j);
                    }
                } else {
                    assert forall|k: int| 0 <= k < fin.len() implies (#[trigger] fin[k]).addr
                        != a by {
                        if k == last {
                        } else if i < n && k == i {
                            assert(fin[k] == orig[n - 1]);
                        } else {
                            assert(fin[k] == orig[k]);
                        }
                    }
                    lemma_seq_history_absent(fin, a);
                    lemma_seq_history_absent(orig, a);
                }
            }
            // the new entry's history is sorted and bounded by `now`
            lemma_evicted_suffix(h0, now);
            assert(self.wf()) by {
                assert forall|p: int| 0 <= p < fin.len() implies sorted_stamps(
                    (#[trigger] fin[p]).stamps@,
                ) by {
                    if p < last {
                        let j = choose|j: int|
                            0 <= j < orig.len() && (#[trigger] orig[j]) == fin[p] && orig[j].addr != addr;
                        assert(sorted_stamps(orig[j].stamps@));
                    }
                }
                assert forall|p: int, k: int|
                    0 <= p < fin.len() && 0 <= k < fin[p].stamps@.len() implies #[trigger] fin[p].stamps@[k]
                    <= self.latest by {
                    if p < last {
                        let j = choose|j: int|
                            0 <= j < orig.len() && (#[trigger] orig[j]) == fin[p] && orig[j].addr != addr;
                        assert(orig[j].stamps@[k] <= old(self).latest);
                    }
                }
            }
        }
        admitted
    }
}

fn is_expired(t: u64, now: u64) -> (r: bool)
    ensures
        r == too_old(t, now),
{
    now > WINDOW_MS && t < now - WINDOW_MS
}

} // verus!
