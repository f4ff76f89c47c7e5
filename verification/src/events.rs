//! Mutation events: the decoupling of "what should happen" from "what a
//! downstream observer sees". The interaction pipeline decides and applies a
//! mutation, then records one event per mutation on the bus; listeners drain
//! the bus fully each tick.

use vstd::prelude::*;
use crate::board::Position;

verus! {

/// One mutation of the logical board, as published to listeners.
#[derive(Clone, Copy, PartialEq, Eq, Structural, Debug)]
pub enum MutationEvent {
    /// A piece was picked up; `at` is the grid cell under the pointer at
    /// pickup, where the drag highlight appears.
    DragStarted { piece: u64, at: Position },
    /// The held piece was dropped (and snapped to its new cell).
    Dropped { piece: u64 },
    /// A piece was deleted: erased in trash mode, or overwritten by a drop
    /// or a placement.
    Deleted { piece: u64 },
    /// A new piece was created by placement.
    Drawn { piece: u64 },
}

/// The handles `ids`, as deletion events in the same order.
pub open spec fn spec_deleted_events(ids: Seq<u64>) -> Seq<MutationEvent> {
    ids.map_values(|id: u64| MutationEvent::Deleted { piece: id })
}

/// Builds the deletion events for the handles removed by a clearing scan.
pub fn deleted_events(ids: &Vec<u64>) -> (evs: Vec<MutationEvent>)
    ensures
        evs@ == spec_deleted_events(ids@),
{
    let mut evs: Vec<MutationEvent> = Vec::new();
    let n = ids.len();
    let mut i: usize = 0;
    while i < n
        invariant
            n == ids@.len(),
            i <= n,
            evs@ == spec_deleted_events(ids@.take(i as int)),
        decreases n - i,
    {
        evs.push(MutationEvent::Deleted { piece: ids[i] });
        proof {
            assert(evs@ =~= spec_deleted_events(ids@.take(i + 1)));
        }
        i = i + 1;
    }
    proof {
        assert(ids@.take(n as int) =~= ids@);
    }
    evs
}

/// The event bus: single producer, drained fully each tick, so an event
/// written in one tick is seen by listeners no later than the next tick and
/// never accumulates across ticks.
pub struct MutationEventBus {
    pending: Vec<MutationEvent>,
}

impl View for MutationEventBus {
    type V = Seq<MutationEvent>;

    closed spec fn view(&self) -> Seq<MutationEvent> {
        self.pending@
    }
}

impl MutationEventBus {
    /// An empty bus.
    pub fn new() -> (b: MutationEventBus)
        ensures
            b@.len() == 0,
    {
        MutationEventBus { pending: Vec::new() }
    }

    /// Publishes one event behind those already pending.
    pub fn publish(&mut self, ev: MutationEvent)
        ensures
            final(self)@ == old(self)@.push(ev),
    {
        self.pending.push(ev);
    }

    /// Publishes a tick's events, in order, behind those already pending.
    pub fn publish_all(&mut self, evs: Vec<MutationEvent>)
        ensures
            final(self)@ == old(self)@ + evs@,
    {
        let n = evs.len();
        let mut i: usize = 0;
        while i < n
            invariant
                n == evs@.len(),
                i <= n,
                self@ == old(self)@ + evs@.take(i as int),
            decreases n - i,
        {
            let ev = evs[i];
            self.pending.push(ev);
            proof {
                assert(old(self)@ + evs@.take(i + 1) =~= (old(self)@ + evs@.take(i as int)).push(
                    evs@[i as int],
                ));
            }
            i = i + 1;
        }
        proof {
            assert(evs@.take(n as int) =~= evs@);
        }
    }

    /// Drains the bus: every pending event leaves, in publication order, and
    /// the bus is empty afterwards.
    pub fn drain(&mut self) -> (evs: Vec<MutationEvent>)
        ensures
            evs@ == old(self)@,
            final(self)@.len() == 0,
    {
        let mut out: Vec<MutationEvent> = Vec::new();
        core::mem::swap(&mut out, &mut self.pending);
        out
    }
}

} // verus!
