//! The wishlist: blocks that are referenced but not received yet, each with
//! one outstanding request that is renewed a bounded number of times.
use vstd::prelude::*;

verus! {

/// A missing block, when it was last requested (in milliseconds) and how many
/// times the request was renewed.
#[derive(Clone, Copy, Debug, PartialEq, Eq, Structural)]
pub struct WishEntry {
    pub block: u64,
    pub requested_at: u64,
    pub retries: u32,
}

/// Whether the request for `e` is due for renewal at `now`.
pub open spec fn spec_expired(e: WishEntry, now: u64, interval: u64) -> bool {
    now as int >= e.requested_at as int + interval as int
}

/// The entries after a tick at `now`: an entry not yet due stays; a due entry
/// with retries left is requested again at `now`; a due entry without retries
/// left is dropped.
pub open spec fn spec_tick_entries(s: Seq<WishEntry>, now: u64, interval: u64, max_retries: u32) -> Seq<WishEntry>
    decreases s.len(),
{
    if s.len() == 0 {
        Seq::empty()
    } else {
        let rest = spec_tick_entries(s.drop_last(), now, interval, max_retries);
        let e = s.last();
        if !spec_expired(e, now, interval) {
            rest.push(e)
        } else if e.retries < max_retries {
            rest.push(WishEntry { block: e.block, requested_at: now, retries: (e.retries + 1) as u32 })
        } else {
            rest
        }
    }
}

/// The blocks requested again by a tick at `now`, in wishlist order.
pub open spec fn spec_rerequested(s: Seq<WishEntry>, now: u64, interval: u64, max_retries: u32) -> Seq<u64>
    decreases s.len(),
{
    if s.len() == 0 {
        Seq::empty()
    } else {
        let rest = spec_rerequested(s.drop_last(), now, interval, max_retries);
        let e = s.last();
        if spec_expired(e, now, interval) && e.retries < max_retries {
            rest.push(e.block)
        } else {
            rest
        }
    }
}

/// The blocks given up by a tick at `now`, in wishlist order.
pub open spec fn spec_given_up(s: Seq<WishEntry>, now: u64, interval: u64, max_retries: u32) -> Seq<u64>
    decreases s.len(),
{
    if s.len() == 0 {
        Seq::empty()
    } else {
        let rest = spec_given_up(s.drop_last(), now, interval, max_retries);
        let e = s.last();
        if spec_expired(e, now, interval) && e.retries >= max_retries {
            rest.push(e.block)
        } else {
            rest
        }
    }
}

/// Whether some entry of `s` is for block `b`.
pub open spec fn spec_has_block(s: Seq<WishEntry>, b: u64) -> bool {
    exists|i: int| 0 <= i < s.len() && s[i].block == b
}

/// No two entries of `s` are for the same block.
pub open spec fn spec_unique_blocks(s: Seq<WishEntry>) -> bool {
    forall|i: int, j: int| 0 <= i < j < s.len() ==> s[i].block != s[j].block
}

/// Every entry of `s` was renewed at most `max_retries` times.
pub open spec fn spec_retries_bounded(s: Seq<WishEntry>, max_retries: u32) -> bool {
    forall|i: int| 0 <= i < s.len() ==> s[i].retries <= max_retries
}

/// The blocks a tick keeps are blocks that were there before.
pub proof fn lemma_tick_keeps_blocks(s: Seq<WishEntry>, now: u64, interval: u64, max_retries: u32, b: u64)
    ensures
        spec_has_block(spec_tick_entries(s, now, interval, max_retries), b) ==> spec_has_block(s, b),
    decreases s.len(),
{
    if s.len() > 0 {
        let t = spec_tick_entries(s, now, interval, max_retries);
        let rest = spec_tick_entries(s.drop_last(), now, interval, max_retries);
        lemma_tick_keeps_blocks(s.drop_last(), now, interval, max_retries, b);
        if spec_has_block(t, b) {
            let i = choose|i: int| 0 <= i < t.len() && t[i].block == b;
            if i < rest.len() {
                assert(spec_has_block(rest, b));
                let j = choose|j: int| 0 <= j < s.drop_last().len() && s.drop_last()[j].block == b;
                assert(s[j].block == b);
            } else {
                assert(s[s.len() - 1].block == b);
            }
        }
    }
}

/// A tick keeps one entry per block, and keeps the retry bound.
pub proof fn lemma_tick_keeps_invariant(s: Seq<WishEntry>, now: u64, interval: u64, max_retries: u32)
    requires
        spec_unique_blocks(s),
        spec_retries_bounded(s, max_retries),
    ensures
        spec_unique_blocks(spec_tick_entries(s, now, interval, max_retries)),
        spec_retries_bounded(spec_tick_entries(s, now, interval, max_retries), max_retries),
    decreases s.len(),
{
    if s.len() > 0 {
        let init = s.drop_last();
        let e = s.last();
        let rest = spec_tick_entries(init, now, interval, max_retries);
        assert(spec_unique_blocks(init));
        assert(spec_retries_bounded(init, max_retries));
        lemma_tick_keeps_invariant(init, now, interval, max_retries);
        lemma_tick_keeps_blocks(init, now, interval, max_retries, e.block);
        if spec_has_block(init, e.block) {
            let j = choose|j: int| 0 <= j < init.len() && init[j].block == e.block;
            assert(s[j].block == s[s.len() - 1].block);
        }
        assert(!spec_has_block(rest, e.block));
        let t = spec_tick_entries(s, now, interval, max_retries);
        assert forall|i: int, j: int| 0 <= i < j < t.len() implies t[i].block != t[j].block by {
            if j == rest.len() {
                assert(t[j].block == e.block);
                assert(t[i] == rest[i]);
            } else {
                assert(t[i] == rest[i] && t[j] == rest[j]);
            }
        }
    }
}

/// A request renewed `max_retries` times is not renewed again: once it is due,
/// the next tick drops its block from the wishlist and reports it given up.
pub proof fn lemma_tick_gives_up_exhausted(s: Seq<WishEntry>, now: u64, interval: u64, max_retries: u32, i: int)
    requires
        spec_unique_blocks(s),
        0 <= i < s.len(),
        spec_expired(s[i], now, interval),
        s[i].retries >= max_retries,
    ensures
        !spec_has_block(spec_tick_entries(s, now, interval, max_retries), s[i].block),
        spec_given_up(s, now, interval, max_retries).contains(s[i].block),
    decreases s.len(),
{
    let init = s.drop_last();
    let b = s[i].block;
    let rest = spec_tick_entries(init, now, interval, max_retries);
    if i == s.len() - 1 {
        lemma_tick_keeps_blocks(init, now, interval, max_retries, b);
        if spec_has_block(init, b) {
            let j = choose|j: int| 0 <= j < init.len() && init[j].block == b;
            assert(s[j].block == s[i].block);
        }
        let g = spec_given_up(s, now, interval, max_retries);
        assert(g[g.len() - 1] == b);
    } else {
        assert(init[i] == s[i]);
        lemma_tick_gives_up_exhausted(init, now, interval, max_retries, i);
        let t = spec_tick_entries(s, now, interval, max_retries);
        if spec_has_block(t, b) {
            let k = choose|k: int| 0 <= k < t.len() && t[k].block == b;
            if k < rest.len() {
                assert(rest[k] == t[k]);
            } else {
                assert(s[s.len() - 1].block == b);
            }
        }
        let g0 = spec_given_up(init, now, interval, max_retries);
        let g = spec_given_up(s, now, interval, max_retries);
        let k = choose|k: int| 0 <= k < g0.len() && g0[k] == b;
        assert(g[k] == b);
    }
}

/// The blocks this node is waiting for, with one outstanding request each.
pub struct Wishlist {
    entries: Vec<WishEntry>,
    retry_interval_ms: u64,
    max_retries: u32,
}

impl View for Wishlist {
    type V = Seq<WishEntry>;

    closed spec fn view(&self) -> Seq<WishEntry> {
        self.entries@
    }
}

impl Wishlist {
    /// Time after which an unanswered request is renewed, in milliseconds.
    pub closed spec fn spec_retry_interval(&self) -> u64 {
        self.retry_interval_ms
    }

    /// How many times a request is renewed before the block is given up.
    pub closed spec fn spec_max_retries(&self) -> u32 {
        self.max_retries
    }

    /// One entry per block, none renewed more often than allowed.
    pub open spec fn wf(&self) -> bool {
        spec_unique_blocks(self@) && spec_retries_bounded(self@, self.spec_max_retries())
    }

    /// An empty wishlist.
    pub fn new(retry_interval_ms: u64, max_retries: u32) -> (r: Wishlist)
        ensures
            r.wf(),
            r@ == Seq::<WishEntry>::empty(),
            r.spec_retry_interval() == retry_interval_ms,
            r.spec_max_retries() == max_retries,
    {
        Wishlist { entries: Vec::new(), retry_interval_ms, max_retries }
    }

    /// The number of missing blocks.
    pub fn len(&self) -> (r: usize)
        ensures
            r == self@.len(),
    {
        self.entries.len()
    }

    /// The entry of block `b`, if it is missing.
    pub fn get(&self, b: u64) -> (r: Option<WishEntry>)
        requires
            self.wf(),
        ensures
            r is None <==> !spec_has_block(self@, b),
            r matches Some(e) ==> exists|i: int| 0 <= i < self@.len() && self@[i] == e && e.block == b,
    {
        let mut i: usize = 0;
        while i < self.entries.len()
            invariant
                i <= self.entries.len(),
                forall|j: int| 0 <= j < i ==> self.entries@[j].block != b,
            decreases self.entries.len() - i,
        {
            let e = self.entries[i];
            if e.block == b {
                assert(self@[i as int] == e);
                return Some(e);
            }
            i = i + 1;
        }
        None
    }

    /// Records that block `b` is missing, at time `now`. Returns whether a
    /// request must be sent: only when `b` was not wished yet, so that at most
    /// one request per block is outstanding.
    pub fn note_missing(&mut self, b: u64, now: u64) -> (request: bool)
        requires
            old(self).wf(),
        ensures
            final(self).wf(),
            request == !spec_has_block(old(self)@, b),
            request ==> final(self)@ == old(self)@.push(WishEntry { block: b, requested_at: now, retries: 0 }),
            !request ==> final(self)@ == old(self)@,
            final(self).spec_retry_interval() == old(self).spec_retry_interval(),
            final(self).spec_max_retries() == old(self).spec_max_retries(),
    {
        if self.get(b).is_some() {
            false
        } else {
            self.entries.push(WishEntry { block: b, requested_at: now, retries: 0 });
            proof {
                let s = self.entries@;
                assert forall|i: int, j: int| 0 <= i < j < s.len() implies s[i].block != s[j].block by {
                    if j == s.len() - 1 {
                        assert(old(self)@[i] == s[i]);
                    } else {
                        assert(old(self)@[i] == s[i] && old(self)@[j] == s[j]);
                    }
                }
            }
            true
        }
    }

    /// Block `b` was received, or discarded: it is no longer wished. Returns
    /// whether it was.
    pub fn resolve(&mut self, b: u64) -> (was_wished: bool)
        requires
            old(self).wf(),
        ensures
            final(self).wf(),
            was_wished == spec_has_block(old(self)@, b),
            !spec_has_block(final(self)@, b),
            forall|c: u64| c != b ==> (spec_has_block(final(self)@, c) <==> spec_has_block(old(self)@, c)),
            forall|i: int| 0 <= i < final(self)@.len() ==> old(self)@.contains(#[trigger] final(self)@[i]),
            final(self).spec_retry_interval() == old(self).spec_retry_interval(),
            final(self).spec_max_retries() == old(self).spec_max_retries(),
    {
        let mut i: usize = 0;
        while i < self.entries.len()
            invariant
                i <= self.entries.len(),
                self.entries@ == old(self).entries@,
                self.retry_interval_ms == old(self).retry_interval_ms,
                self.max_retries == old(self).max_retries,
                spec_unique_blocks(self.entries@),
                spec_retries_bounded(self.entries@, self.max_retries),
                forall|j: int| 0 <= j < i ==> self.entries@[j].block != b,
            decreases self.entries.len() - i,
        {
            if self.entries[i].block == b {
                let ghost s = self.entries@;
                self.entries.remove(i);
                proof {
                    let t = self.entries@;
                    assert(t =~= s.remove(i as int));
                    assert forall|c: u64| c != b implies (spec_has_block(t, c) <==> spec_has_block(s, c)) by {
                        if spec_has_block(s, c) {
                            let k = choose|k: int| 0 <= k < s.len() && s[k].block == c;
                            if k < i {
                                assert(t[k].block == c);
                            } else {
                                assert(t[k - 1].block == c);
                            }
                        }
                        if spec_has_block(t, c) {
                            let k = choose|k: int| 0 <= k < t.len() && t[k].block == c;
                            if k < i {
                                assert(s[k].block == c);
                            } else {
                                assert(s[k + 1].block == c);
                            }
                        }
                    }
                    assert(s[i as int].block == b);
                    assert forall|k: int| 0 <= k < t.len() implies t[k].block != b by {
                        if k >= i {
                            assert(s[k + 1] == t[k]);
                            assert(s[i as int].block != s[k + 1].block);
                        }
                    }
                    assert forall|k1: int, k2: int| 0 <= k1 < k2 < t.len() implies t[k1].block != t[k2].block by {
                        let j1 = if k1 < i { k1 } else { k1 + 1 };
                        let j2 = if k2 < i { k2 } else { k2 + 1 };
                        assert(s[j1] == t[k1] && s[j2] == t[k2]);
                    }
                    assert forall|k: int| 0 <= k < t.len() implies t[k].retries <= self.max_retries by {
                        let j = if k < i { k } else { k + 1 };
                        assert(s[j] == t[k]);
                    }
                    assert forall|k: int| 0 <= k < t.len() implies s.contains(#[trigger] t[k]) by {
                        if k < i {
                            assert(s[k] == t[k]);
                        } else {
                            assert(s[k + 1] == t[k]);
                        }
                    }
                }
                return true;
            }
            i = i + 1;
        }
        proof {
            assert forall|k: int| 0 <= k < self.entries@.len() implies old(self)@.contains(#[trigger] self.entries@[k]) by {
                assert(old(self)@[k] == self.entries@[k]);
            }
        }
        false
    }

    /// Renews the requests that are due at `now`: returns the blocks to request
    /// again and the blocks given up, whose requests were renewed
    /// `max_retries` times already and which, with what depends on them, are
    /// to be discarded as unobtainable.
    pub fn tick(&mut self, now: u64) -> (r: (Vec<u64>, Vec<u64>))
        requires
            old(self).wf(),
        ensures
            final(self).wf(),
            final(self)@ == spec_tick_entries(old(self)@, now, old(self).spec_retry_interval(), old(self).spec_max_retries()),
            r.0@ == spec_rerequested(old(self)@, now, old(self).spec_retry_interval(), old(self).spec_max_retries()),
            r.1@ == spec_given_up(old(self)@, now, old(self).spec_retry_interval(), old(self).spec_max_retries()),
            final(self).spec_retry_interval() == old(self).spec_retry_interval(),
            final(self).spec_max_retries() == old(self).spec_max_retries(),
    {
        let interval = self.retry_interval_ms;
        let max_retries = self.max_retries;
        let ghost s = self.entries@;
        let mut kept: Vec<WishEntry> = Vec::new();
        let mut again: Vec<u64> = Vec::new();
        let mut dropped: Vec<u64> = Vec::new();
        let mut i: usize = 0;
        while i < self.entries.len()
            invariant
                i <= s.len(),
                self.entries@ == s,
                self.retry_interval_ms == interval,
                self.max_retries == max_retries,
                kept@ == spec_tick_entries(s.take(i as int), now, interval, max_retries),
                again@ == spec_rerequested(s.take(i as int), now, interval, max_retries),
                dropped@ == spec_given_up(s.take(i as int), now, interval, max_retries),
            decreases s.len() - i,
        {
            let e = self.entries[i];
            assert(s.take(i + 1).drop_last() =~= s.take(i as int));
            assert(s.take(i + 1).last() == e);
            let due = now >= e.requested_at && now - e.requested_at >= interval;
            if !due {
                kept.push(e);
            } else if e.retries < max_retries {
                kept.push(WishEntry { block: e.block, requested_at: now, retries: e.retries + 1 });
                again.push(e.block);
            } else {
                dropped.push(e.block);
            }
            i = i + 1;
        }
        assert(s.take(s.len() as int) =~= s);
        proof {
            lemma_tick_keeps_invariant(s, now, interval, max_retries);
        }
        self.entries = kept;
        (again, dropped)
    }
}

} // verus!
