//! Per-entity ring of past predicted states, keyed by tick.
//!
//! Depth `RING_DEPTH` bounds how far back a rollback can reach; a write for
//! an already-occupied tick overwrites, so the ring never holds two
//! snapshots for the same tick.

use crate::RING_DEPTH;
use crate::body::BodyState;
use vstd::arithmetic::div_mod::lemma_fundamental_div_mod;
use vstd::prelude::*;

verus! {

/// Ticks less than a full ring apart never share a slot.
pub proof fn lemma_distinct_slots(a: u64, b: u64)
    requires
        a < b,
        b - a < RING_DEPTH,
    ensures
        a % RING_DEPTH != b % RING_DEPTH,
{
    lemma_fundamental_div_mod(a as int, RING_DEPTH as int);
    lemma_fundamental_div_mod(b as int, RING_DEPTH as int);
}

/// Bounded history of one predicted entity's states, indexed by tick.
pub struct StateHistory {
    slots: Vec<Option<(u64, BodyState)>>,
}

impl View for StateHistory {
    type V = Map<u64, BodyState>;

    /// The ring as a map from tick to the snapshot stored for it.
    closed spec fn view(&self) -> Map<u64, BodyState> {
        Map::new(
            |t: u64| self.slot_holds(t),
            |t: u64| self.slots@[(t % RING_DEPTH) as int]->Some_0.1,
        )
    }
}

impl StateHistory {
    spec fn slot_holds(self, t: u64) -> bool {
        &&& self.slots@.len() == RING_DEPTH
        &&& self.slots@[(t % RING_DEPTH) as int] matches Some(e) && e.0 == t
    }

    /// One slot per residue class of ticks; a slot only holds a snapshot
    /// tagged with a tick of its own class.
    pub closed spec fn wf(self) -> bool {
        &&& self.slots@.len() == RING_DEPTH
        &&& forall|i: int|
            0 <= i < RING_DEPTH ==> ((#[trigger] self.slots@[i]) matches Some(e) ==> e.0
                % RING_DEPTH == i)
    }

    /// An empty history.
    pub fn new() -> (r: StateHistory)
        ensures
            r.wf(),
            r@ == Map::<u64, BodyState>::empty(),
    {
        let mut slots: Vec<Option<(u64, BodyState)>> = Vec::new();
        let mut i: u64 = 0;
        while i < RING_DEPTH
            invariant
                i <= RING_DEPTH,
                slots@.len() == i,
                forall|j: int| 0 <= j < i ==> #[trigger] slots@[j] is None,
            decreases RING_DEPTH - i,
        {
            slots.push(None);
            i = i + 1;
        }
        let r = StateHistory { slots };
        proof {
            assert(r@ =~= Map::<u64, BodyState>::empty());
        }
        r
    }

    /// Store (or overwrite) the snapshot for `tick`, evicting whichever
    /// older tick shared its slot; every other entry is untouched.
    pub fn write(&mut self, tick: u64, state: BodyState)
        requires
            old(self).wf(),
        ensures
            final(self).wf(),
            final(self)@.contains_key(tick),
            final(self)@[tick] == state,
            forall|t: u64|
                t != tick && t % RING_DEPTH == tick % RING_DEPTH
                    ==> !(#[trigger] final(self)@.contains_key(t)),
            forall|t: u64|
                t % RING_DEPTH != tick % RING_DEPTH ==> #[trigger] final(self)@.contains_key(t)
                    == old(self)@.contains_key(t),
            forall|t: u64|
                t % RING_DEPTH != tick % RING_DEPTH && old(self)@.contains_key(t)
                    ==> #[trigger] final(self)@[t] == old(self)@[t],
    {
        let idx = (tick % RING_DEPTH) as usize;
        self.slots.set(idx, Some((tick, state)));
    }

    /// The snapshot stored for exactly `tick`, if the ring still holds one.
    pub fn read(&self, tick: u64) -> (r: Option<BodyState>)
        requires
            self.wf(),
        ensures
            match r {
                Some(s) => self@.contains_key(tick) && self@[tick] == s,
                None => !self@.contains_key(tick),
            },
    {
        let idx = (tick % RING_DEPTH) as usize;
        match self.slots[idx] {
            Some((t, s)) => {
                if t == tick {
                    Some(s)
                } else {
                    None
                }
            },
            None => None,
        }
    }
}

} // verus!
