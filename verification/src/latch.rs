//! The edge latch: a one-bit hand-off from interrupt context to the main
//! loop.
//!
//! The interrupt handler is the sole setter, the main loop the sole
//! consumer.  The latch is modelled here as a sequential object together
//! with a ghost history of the events applied to it; the trace lemmas in
//! this module state the conservation law of the hand-off: every rising
//! set is consumed by exactly one poll, or is still pending.

use vstd::prelude::*;

verus! {

/// One event applied to the latch: an edge delivered by the interrupt
/// handler (`Edge`), or an atomic test-and-clear by the main loop
/// (`Poll`).
#[derive(Clone, Copy, PartialEq, Eq, Structural)]
pub enum LatchEvent {
    Edge,
    Poll,
}

/// The latch value after a history of events: an `Edge` leaves it set,
/// a `Poll` leaves it clear, and it starts clear.
pub open spec fn pending_after(ev: Seq<LatchEvent>) -> bool {
    ev.len() > 0 && ev.last() == LatchEvent::Edge
}

/// How many polls in the history returned `true`.
pub open spec fn trues_returned(ev: Seq<LatchEvent>) -> nat
    decreases ev.len(),
{
    if ev.len() == 0 {
        0
    } else {
        trues_returned(ev.drop_last()) + match ev.last() {
            LatchEvent::Poll => if pending_after(ev.drop_last()) { 1nat } else { 0nat },
            LatchEvent::Edge => 0nat,
        }
    }
}

/// How many edges in the history found the latch clear (rising sets).
pub open spec fn rises(ev: Seq<LatchEvent>) -> nat
    decreases ev.len(),
{
    if ev.len() == 0 {
        0
    } else {
        rises(ev.drop_last()) + match ev.last() {
            LatchEvent::Edge => if pending_after(ev.drop_last()) { 0nat } else { 1nat },
            LatchEvent::Poll => 0nat,
        }
    }
}

/// How many edges the history holds in all.
pub open spec fn edges(ev: Seq<LatchEvent>) -> nat
    decreases ev.len(),
{
    if ev.len() == 0 {
        0
    } else {
        edges(ev.drop_last()) + match ev.last() {
            LatchEvent::Edge => 1nat,
            LatchEvent::Poll => 0nat,
        }
    }
}

/// Holds when no edge arrived while the latch was already set, i.e. no
/// two edges were coalesced into one pending bit.
pub open spec fn no_coalescing(ev: Seq<LatchEvent>) -> bool
    decreases ev.len(),
{
    if ev.len() == 0 {
        true
    } else {
        no_coalescing(ev.drop_last()) && (ev.last() == LatchEvent::Edge
            ==> !pending_after(ev.drop_last()))
    }
}

/// An interrupt-safe boolean flag.  `set` is called from interrupt
/// context, `test_and_clear` from the main context; the embedding shell
/// realises it as a single-word atomic, which this sequential model
/// mirrors transition for transition.
pub struct EdgeLatch {
    pending: bool,
    history: Ghost<Seq<LatchEvent>>,
}

impl EdgeLatch {
    /// The pending bit as the contracts see it.
    pub closed spec fn pending(self) -> bool {
        self.pending
    }

    /// The events applied to the latch so far.
    pub closed spec fn history(self) -> Seq<LatchEvent> {
        self.history@
    }

    /// The latch agrees with its event history.
    pub open spec fn wf(self) -> bool {
        self.pending() == pending_after(self.history())
    }

    /// A fresh latch: clear, with no event yet.
    pub fn new() -> (r: EdgeLatch)
        ensures
            r.wf(),
            !r.pending(),
            r.history() == Seq::<LatchEvent>::empty(),
    {
        EdgeLatch { pending: false, history: Ghost(Seq::empty()) }
    }

    /// Marks an edge as pending.  Idempotent, never blocks, never fails.
    pub fn set(&mut self)
        requires
            old(self).wf(),
        ensures
            final(self).wf(),
            final(self).pending(),
            final(self).history() == old(self).history().push(LatchEvent::Edge),
    {
        self.pending = true;
        self.history = Ghost(self.history@.push(LatchEvent::Edge));
    }

    /// Atomically reads the pending bit and clears it, returning the
    /// prior value.
    pub fn test_and_clear(&mut self) -> (r: bool)
        requires
            old(self).wf(),
        ensures
            final(self).wf(),
            r == old(self).pending(),
            !final(self).pending(),
            final(self).history() == old(self).history().push(LatchEvent::Poll),
    {
        let r = self.pending;
        self.pending = false;
        self.history = Ghost(self.history@.push(LatchEvent::Poll));
        r
    }
}

/// Conservation of the hand-off: over any history, the polls that
/// returned `true`, plus the edge still pending (if any), account
/// exactly for the rising sets.  No rise is lost and none is observed
/// twice, however polls and edges interleave.
pub proof fn lemma_latch_conservation(ev: Seq<LatchEvent>)
    ensures
        trues_returned(ev) + (if pending_after(ev) { 1nat } else { 0nat }) == rises(ev),
    decreases ev.len(),
{
    if ev.len() > 0 {
        lemma_latch_conservation(ev.drop_last());
    }
}

/// When no edge arrives while one is already pending, every edge is a
/// rising set.
pub proof fn lemma_spaced_edges_all_rise(ev: Seq<LatchEvent>)
    requires
        no_coalescing(ev),
    ensures
        rises(ev) == edges(ev),
    decreases ev.len(),
{
    if ev.len() > 0 {
        lemma_spaced_edges_all_rise(ev.drop_last());
    }
}

/// For any history in which every edge found the latch clear, the number
/// of `true` values the polls returned, plus the edge still pending (if
/// any), equals the number of edges delivered: each edge is counted
/// exactly once, with no duplication and no loss.
pub proof fn lemma_edge_conservation(ev: Seq<LatchEvent>)
    requires
        no_coalescing(ev),
    ensures
        trues_returned(ev) + (if pending_after(ev) { 1nat } else { 0nat }) == edges(ev),
{
    lemma_latch_conservation(ev);
    lemma_spaced_edges_all_rise(ev);
}

/// Two polls in a row, with no edge in between, return `true` at most
/// once: the first consumes the pending bit, so the second finds the
/// latch clear and returns `false`.
pub proof fn lemma_test_and_clear_idempotent(ev: Seq<LatchEvent>)
    ensures
        !pending_after(ev.push(LatchEvent::Poll)),
        trues_returned(ev.push(LatchEvent::Poll).push(LatchEvent::Poll))
            == trues_returned(ev.push(LatchEvent::Poll)),
{
    let once = ev.push(LatchEvent::Poll);
    let twice = once.push(LatchEvent::Poll);
    assert(twice.drop_last() =~= once);
}

} // verus!
