//! The life of a block in the graph: its status, and how events move it.
use vstd::prelude::*;

verus! {

/// Why a block left the graph.
#[derive(Clone, Copy, Debug, PartialEq, Eq, Structural)]
pub enum DiscardReason {
    Invalid,
    DoubleProduction,
    Stale,
    UnresolvableDependency,
}

/// The status of a block, blocks being named by their identifier.
#[derive(Clone, Debug)]
pub enum BlockStatus {
    Incoming,
    WaitingForDependencies(Vec<u64>),
    ActiveInBlockGraph,
    Final,
    Discarded(DiscardReason),
}

/// A status as a value: the blocks that a waiting block still misses form a set.
pub enum StatusView {
    Incoming,
    Waiting(Set<u64>),
    Active,
    Final,
    Discarded(DiscardReason),
}

impl View for BlockStatus {
    type V = StatusView;

    open spec fn view(&self) -> StatusView {
        match self {
            BlockStatus::Incoming => StatusView::Incoming,
            BlockStatus::WaitingForDependencies(m) => StatusView::Waiting(m@.to_set()),
            BlockStatus::ActiveInBlockGraph => StatusView::Active,
            BlockStatus::Final => StatusView::Final,
            BlockStatus::Discarded(r) => StatusView::Discarded(*r),
        }
    }
}

/// What can happen to a block.
#[derive(Clone, Debug)]
pub enum StatusEvent {
    /// The block passed its checks; `missing` lists the parents not received yet.
    Checked(Vec<u64>),
    /// A block that others may wait for was received.
    DependencyArrived(u64),
    /// Finality reached the block.
    Finalized,
    /// The block was found invalid, stale or unobtainable.
    Discard(DiscardReason),
}

/// An event as a value: the parents a checked block misses form a set.
pub enum EventView {
    Checked(Set<u64>),
    DependencyArrived(u64),
    Finalized,
    Discard(DiscardReason),
}

impl View for StatusEvent {
    type V = EventView;

    open spec fn view(&self) -> EventView {
        match self {
            StatusEvent::Checked(m) => EventView::Checked(m@.to_set()),
            StatusEvent::DependencyArrived(b) => EventView::DependencyArrived(*b),
            StatusEvent::Finalized => EventView::Finalized,
            StatusEvent::Discard(r) => EventView::Discard(*r),
        }
    }
}

/// A block with nothing missing is active, otherwise it waits for what it misses.
pub open spec fn spec_waiting_or_active(missing: Set<u64>) -> StatusView {
    if missing.is_empty() {
        StatusView::Active
    } else {
        StatusView::Waiting(missing)
    }
}

/// The status after an event. Statuses only move forward: a checked incoming
/// block waits for its missing parents or becomes active; it becomes active
/// once the last of them arrives; an active block may become final; a block
/// not yet final may be discarded. Final and discarded blocks stay as they are,
/// and an event that does not apply changes nothing.
pub open spec fn spec_next_status(s: StatusView, e: EventView) -> StatusView {
    match (s, e) {
        (StatusView::Incoming, EventView::Checked(missing)) => spec_waiting_or_active(missing),
        (StatusView::Waiting(missing), EventView::DependencyArrived(b)) =>
            spec_waiting_or_active(missing.remove(b)),
        (StatusView::Active, EventView::Finalized) => StatusView::Final,
        (StatusView::Incoming, EventView::Discard(r)) => StatusView::Discarded(r),
        (StatusView::Waiting(_), EventView::Discard(r)) => StatusView::Discarded(r),
        (StatusView::Active, EventView::Discard(r)) => StatusView::Discarded(r),
        _ => s,
    }
}

/// The status after a sequence of events, applied in order.
pub open spec fn spec_run_status(s: StatusView, events: Seq<EventView>) -> StatusView
    decreases events.len(),
{
    if events.len() == 0 {
        s
    } else {
        spec_next_status(spec_run_status(s, events.drop_last()), events.last())
    }
}

/// Finality is irreversible: a final block stays final whatever events follow.
pub proof fn lemma_final_stays_final(events: Seq<EventView>)
    ensures
        spec_run_status(StatusView::Final, events) == StatusView::Final,
    decreases events.len(),
{
    if events.len() > 0 {
        lemma_final_stays_final(events.drop_last());
    }
}

/// A discarded block stays discarded, for the same reason, whatever events follow.
pub proof fn lemma_discarded_stays_discarded(r: DiscardReason, events: Seq<EventView>)
    ensures
        spec_run_status(StatusView::Discarded(r), events) == StatusView::Discarded(r),
    decreases events.len(),
{
    if events.len() > 0 {
        lemma_discarded_stays_discarded(r, events.drop_last());
    }
}

/// The items of `v` other than `b`.
fn without(v: &Vec<u64>, b: u64) -> (r: Vec<u64>)
    ensures
        r@.to_set() == v@.to_set().remove(b),
{
    let mut out: Vec<u64> = Vec::new();
    let mut i: usize = 0;
    while i < v.len()
        invariant
            i <= v.len(),
            forall|x: u64| out@.contains(x) <==> (x != b && exists|j: int| 0 <= j < i && v@[j] == x),
        decreases v.len() - i,
    {
        let x = v[i];
        let ghost before = out@;
        if x != b {
            out.push(x);
        }
        proof {
            assert forall|y: u64| out@.contains(y) <==> (y != b && exists|j: int| 0 <= j < i + 1 && v@[j] == y) by {
                if out@.contains(y) {
                    let k = choose|k: int| 0 <= k < out@.len() && out@[k] == y;
                    if k < before.len() {
                        assert(before[k] == y);
                        assert(before.contains(y));
                    } else {
                        assert(v@[i as int] == y);
                    }
                }
                if y != b && exists|j: int| 0 <= j < i + 1 && v@[j] == y {
                    let j = choose|j: int| 0 <= j < i + 1 && v@[j] == y;
                    if j == i {
                        assert(out@[out@.len() - 1] == y);
                    } else {
                        assert(before.contains(y));
                        let k = choose|k: int| 0 <= k < before.len() && before[k] == y;
                        assert(out@[k] == y);
                    }
                }
            }
        }
        i = i + 1;
    }
    assert(out@.to_set() =~= v@.to_set().remove(b));
    out
}

impl BlockStatus {
    /// Applies an event to the status.
    pub fn apply(&mut self, event: &StatusEvent)
        ensures
            final(self)@ == spec_next_status(old(self)@, event@),
    {
        match (&*self, event) {
            (BlockStatus::Incoming, StatusEvent::Checked(missing)) => {
                if missing.len() == 0 {
                    assert(missing@.to_set() =~= Set::empty());
                    *self = BlockStatus::ActiveInBlockGraph;
                } else {
                    assert(missing@.to_set().contains(missing@[0]));
                    *self = BlockStatus::WaitingForDependencies(missing.clone());
                }
            },
            (BlockStatus::WaitingForDependencies(missing), StatusEvent::DependencyArrived(b)) => {
                let rest = without(missing, *b);
                if rest.len() == 0 {
                    assert(rest@.to_set() =~= Set::empty());
                    *self = BlockStatus::ActiveInBlockGraph;
                } else {
                    assert(rest@.to_set().contains(rest@[0]));
                    *self = BlockStatus::WaitingForDependencies(rest);
                }
            },
            (BlockStatus::ActiveInBlockGraph, StatusEvent::Finalized) => {
                *self = BlockStatus::Final;
            },
            (BlockStatus::Incoming, StatusEvent::Discard(r)) => {
                *self = BlockStatus::Discarded(*r);
            },
            (BlockStatus::WaitingForDependencies(_), StatusEvent::Discard(r)) => {
                *self = BlockStatus::Discarded(*r);
            },
            (BlockStatus::ActiveInBlockGraph, StatusEvent::Discard(r)) => {
                *self = BlockStatus::Discarded(*r);
            },
            _ => {},
        }
    }

    /// Whether the block is final.
    pub fn is_final(&self) -> (r: bool)
        ensures
            r == (self@ is Final),
    {
        match self {
            BlockStatus::Final => true,
            _ => false,
        }
    }
}

} // verus!
