//! The guard against double production: at most one final block per creator
//! and slot.
use vstd::prelude::*;

use crate::status::DiscardReason;

verus! {

/// A block as the guard sees it: who made it, for which slot, and its identifier.
#[derive(Clone, Copy, Debug, PartialEq, Eq, Structural)]
pub struct Production {
    pub creator: u64,
    pub period: u64,
    pub thread: u8,
    pub block: u64,
}

/// Whether `a` and `b` claim the same slot for the same creator.
pub open spec fn spec_same_claim(a: Production, b: Production) -> bool {
    a.creator == b.creator && a.period == b.period && a.thread == b.thread
}

/// Whether a final block of `s` claims `p`'s slot for `p`'s creator and is
/// another block than `p`'s.
pub open spec fn spec_claimed_by_other(s: Seq<Production>, p: Production) -> bool {
    exists|i: int| 0 <= i < s.len() && spec_same_claim(s[i], p) && s[i].block != p.block
}

/// The final productions after finalising `p`: a block that another final
/// block's claim excludes is refused and changes nothing; a block already
/// recorded changes nothing; any other block is recorded.
pub open spec fn spec_after_finalize(s: Seq<Production>, p: Production) -> Seq<Production> {
    if spec_claimed_by_other(s, p) || s.contains(p) {
        s
    } else {
        s.push(p)
    }
}

/// No two final blocks of one creator share a slot.
pub open spec fn spec_one_block_per_claim(s: Seq<Production>) -> bool {
    forall|i: int, j: int|
        0 <= i < s.len() && 0 <= j < s.len() && spec_same_claim(s[i], s[j]) ==> s[i].block == s[j].block
}

/// Two different blocks of one creator for one slot are never both final:
/// once the first is, the second is refused and the record keeps one block
/// per claim.
pub proof fn lemma_no_double_final(s: Seq<Production>, first: Production, second: Production)
    requires
        spec_one_block_per_claim(s),
        spec_same_claim(first, second),
        first.block != second.block,
        !spec_claimed_by_other(s, first),
    ensures
        spec_claimed_by_other(spec_after_finalize(s, first), second),
        spec_after_finalize(spec_after_finalize(s, first), second) == spec_after_finalize(s, first),
        spec_one_block_per_claim(spec_after_finalize(spec_after_finalize(s, first), second)),
{
    let t = spec_after_finalize(s, first);
    if s.contains(first) {
        let i = choose|i: int| 0 <= i < s.len() && s[i] == first;
        assert(spec_same_claim(t[i], second) && t[i].block != second.block);
    } else {
        let k = s.len() as int;
        assert(t[k] == first);
        assert(spec_same_claim(t[k], second) && t[k].block != second.block);
        assert forall|i: int, j: int|
            0 <= i < t.len() && 0 <= j < t.len() && spec_same_claim(t[i], t[j]) implies t[i].block == t[j].block by {
            if i < k && j == k {
                assert(!(spec_same_claim(s[i], first) && s[i].block != first.block));
            } else if i == k && j < k {
                assert(!(spec_same_claim(s[j], first) && s[j].block != first.block));
            }
        }
    }
}

/// The final blocks, by creator and slot.
pub struct FinalProductions {
    records: Vec<Production>,
}

impl View for FinalProductions {
    type V = Seq<Production>;

    closed spec fn view(&self) -> Seq<Production> {
        self.records@
    }
}

impl FinalProductions {
    pub open spec fn wf(&self) -> bool {
        spec_one_block_per_claim(self@)
    }

    /// An empty record.
    pub fn new() -> (r: FinalProductions)
        ensures
            r.wf(),
            r@ == Seq::<Production>::empty(),
    {
        FinalProductions { records: Vec::new() }
    }

    /// Checks `p` against the final blocks: a block whose creator already has
    /// another final block in its slot is refused as a double production.
    pub fn check(&self, p: Production) -> (r: Result<(), DiscardReason>)
        ensures
            r is Err <==> spec_claimed_by_other(self@, p),
            r matches Err(reason) ==> reason == DiscardReason::DoubleProduction,
    {
        let mut i: usize = 0;
        while i < self.records.len()
            invariant
                i <= self.records.len(),
                forall|j: int| 0 <= j < i ==> !(spec_same_claim(self.records@[j], p) && self.records@[j].block != p.block),
            decreases self.records.len() - i,
        {
            let q = self.records[i];
            if q.creator == p.creator && q.period == p.period && q.thread == p.thread && q.block != p.block {
                assert(self@[i as int] == q);
                return Err(DiscardReason::DoubleProduction);
            }
            i = i + 1;
        }
        Ok(())
    }

    /// Records `p` as final, unless it is a double production, which is
    /// refused and leaves the record as it was.
    pub fn finalize(&mut self, p: Production) -> (r: Result<(), DiscardReason>)
        requires
            old(self).wf(),
        ensures
            final(self).wf(),
            r is Err <==> spec_claimed_by_other(old(self)@, p),
            r matches Err(reason) ==> reason == DiscardReason::DoubleProduction,
            final(self)@ == spec_after_finalize(old(self)@, p),
    {
        let verdict = self.check(p);
        if verdict.is_err() {
            return verdict;
        }
        let mut i: usize = 0;
        while i < self.records.len()
            invariant
                i <= self.records.len(),
                self.records@ == old(self).records@,
                !spec_claimed_by_other(old(self)@, p),
                spec_one_block_per_claim(self.records@),
                forall|j: int| 0 <= j < i ==> self.records@[j] != p,
            decreases self.records.len() - i,
        {
            if self.records[i] == p {
                assert(self@[i as int] == p);
                return Ok(());
            }
            i = i + 1;
        }
        let ghost s = self@;
        self.records.push(p);
        proof {
            let t = self@;
            let k = s.len() as int;
            assert(t == s.push(p));
            assert forall|a: int, b: int|
                0 <= a < t.len() && 0 <= b < t.len() && spec_same_claim(t[a], t[b]) implies t[a].block == t[b].block by {
                if a < k && b == k {
                    assert(t[a] == s[a]);
                    assert(!(spec_same_claim(s[a], p) && s[a].block != p.block));
                } else if a == k && b < k {
                    assert(t[b] == s[b]);
                    assert(!(spec_same_claim(s[b], p) && s[b].block != p.block));
                } else if a < k && b < k {
                    assert(t[a] == s[a] && t[b] == s[b]);
                }
            }
        }
        Ok(())
    }

    /// The number of final blocks recorded.
    pub fn len(&self) -> (r: usize)
        ensures
            r == self@.len(),
    {
        self.records.len()
    }
}

} // verus!
