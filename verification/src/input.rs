//! Logical input actions and the per-entity input buffer.
//!
//! The buffer is a ring of the last `RING_DEPTH` input snapshots indexed by
//! tick. A missing entry is semantically distinct from "no keys pressed":
//! simulation recovers a missing entry with the hold-last policy
//! (`held_input`), never by fabricating a released snapshot.

use crate::RING_DEPTH;
use vstd::prelude::*;

verus! {

/// The logical actions a player can hold down.
#[derive(Clone, Copy, PartialEq, Eq, Structural, Debug)]
pub enum PlayerAction {
    Up,
    Down,
    Left,
    Right,
    Shoot,
}

/// The sampled value of every action for one entity at one tick.
#[derive(Clone, Copy, PartialEq, Eq, Structural, Debug)]
pub struct InputSnapshot {
    pub up: bool,
    pub down: bool,
    pub left: bool,
    pub right: bool,
    pub shoot: bool,
}

/// The explicit "no keys pressed" snapshot.
pub open spec fn no_input() -> InputSnapshot {
    InputSnapshot { up: false, down: false, left: false, right: false, shoot: false }
}

impl InputSnapshot {
    pub open spec fn spec_pressed(self, a: PlayerAction) -> bool {
        match a {
            PlayerAction::Up => self.up,
            PlayerAction::Down => self.down,
            PlayerAction::Left => self.left,
            PlayerAction::Right => self.right,
            PlayerAction::Shoot => self.shoot,
        }
    }

    /// Whether `a` is held down in this snapshot.
    pub fn pressed(&self, a: PlayerAction) -> (r: bool)
        ensures
            r == self.spec_pressed(a),
    {
        match a {
            PlayerAction::Up => self.up,
            PlayerAction::Down => self.down,
            PlayerAction::Left => self.left,
            PlayerAction::Right => self.right,
            PlayerAction::Shoot => self.shoot,
        }
    }

    /// The all-released snapshot.
    pub fn released() -> (r: InputSnapshot)
        ensures
            r == no_input(),
    {
        InputSnapshot { up: false, down: false, left: false, right: false, shoot: false }
    }

    /// This snapshot with action `a` set to `v`.
    pub fn with(self, a: PlayerAction, v: bool) -> (r: InputSnapshot)
        ensures
            r.spec_pressed(a) == v,
            forall|b: PlayerAction| b != a ==> #[trigger] r.spec_pressed(b) == self.spec_pressed(b),
    {
        match a {
            PlayerAction::Up => InputSnapshot { up: v, ..self },
            PlayerAction::Down => InputSnapshot { down: v, ..self },
            PlayerAction::Left => InputSnapshot { left: v, ..self },
            PlayerAction::Right => InputSnapshot { right: v, ..self },
            PlayerAction::Shoot => InputSnapshot { shoot: v, ..self },
        }
    }
}

/// Ring of the last `RING_DEPTH` input snapshots of one entity, indexed by
/// tick. Written on the client as inputs are sampled, on the server as they
/// arrive; a second write for an occupied tick overwrites.
pub struct InputBuffer {
    slots: Vec<Option<(u64, InputSnapshot)>>,
}

impl View for InputBuffer {
    type V = Map<u64, InputSnapshot>;

    /// The buffer as a map from tick to the snapshot stored for it.
    closed spec fn view(&self) -> Map<u64, InputSnapshot> {
        Map::new(
            |t: u64| self.slot_holds(t),
            |t: u64| self.slots@[(t % RING_DEPTH) as int]->Some_0.1,
        )
    }
}

impl InputBuffer {
    spec fn slot_holds(self, t: u64) -> bool {
        &&& self.slots@.len() == RING_DEPTH
        &&& self.slots@[(t % RING_DEPTH) as int] matches Some(e) && e.0 == t
    }

    /// The ring has one slot per residue class of ticks, and a slot only
    /// ever holds a snapshot tagged with a tick of its own class.
    pub closed spec fn wf(self) -> bool {
        &&& self.slots@.len() == RING_DEPTH
        &&& forall|i: int|
            0 <= i < RING_DEPTH ==> ((#[trigger] self.slots@[i]) matches Some(e) ==> e.0
                % RING_DEPTH == i)
    }

    /// An empty buffer.
    pub fn new() -> (r: InputBuffer)
        ensures
            r.wf(),
            r@ == Map::<u64, InputSnapshot>::empty(),
    {
        let mut slots: Vec<Option<(u64, InputSnapshot)>> = Vec::new();
        let mut i: u64 = 0;
        while i < RING_DEPTH
            invariant
                i <= RING_DEPTH,
                slots@.len() == i,
                forall|j: int| 0 <= j < i ==> #[trigger] slots@[j] is None,
            decreases RING_DEPTH - i,
        {
            slots.push(None);
            i = i + 1;
        }
        let r = InputBuffer { slots };
        proof {
            assert(r@ =~= Map::<u64, InputSnapshot>::empty());
        }
        r
    }

    /// Store (or overwrite) the snapshot for `tick`. The write may evict the
    /// older snapshot whose tick shared a slot with `tick`; every other
    /// entry is untouched.
    pub fn write(&mut self, tick: u64, snap: InputSnapshot)
        requires
            old(self).wf(),
        ensures
            final(self).wf(),
            final(self)@.contains_key(tick),
            final(self)@[tick] == snap,
            forall|t: u64|
                t != tick && t % RING_DEPTH == tick % RING_DEPTH
                    ==> !(#[trigger] final(self)@.contains_key(t)),
            forall|t: u64|
                t % RING_DEPTH != tick % RING_DEPTH ==> #[trigger] final(self)@.contains_key(t)
                    == old(self)@.contains_key(t),
            forall|t: u64|
                t % RING_DEPTH != tick % RING_DEPTH && old(self)@.contains_key(t)
                    ==> #[trigger] final(self)@[t] == old(self)@[t],
    {
        let idx = (tick % RING_DEPTH) as usize;
        self.slots.set(idx, Some((tick, snap)));
    }

    /// The snapshot stored for exactly `tick`, if one is held.
    pub fn read(&self, tick: u64) -> (r: Option<InputSnapshot>)
        requires
            self.wf(),
        ensures
            match r {
                Some(s) => self@.contains_key(tick) && self@[tick] == s,
                None => !self@.contains_key(tick),
            },
    {
        let idx = (tick % RING_DEPTH) as usize;
        match self.slots[idx] {
            Some((t, s)) => {
                if t == tick {
                    Some(s)
                } else {
                    None
                }
            },
            None => None,
        }
    }
}

/// The most recent tick at or before `t` for which `m` holds a snapshot.
pub open spec fn latest_at_or_before(m: Map<u64, InputSnapshot>, t: u64) -> Option<u64>
    decreases t,
{
    if m.contains_key(t) {
        Some(t)
    } else if t == 0 {
        None
    } else {
        latest_at_or_before(m, (t - 1) as u64)
    }
}

/// The hold-last recovery policy: the input simulation uses at tick `t` is
/// the most recent snapshot held at or before `t`, and only when no tick at
/// or before `t` was ever recorded does it fall back to "no keys pressed".
pub open spec fn held_input(m: Map<u64, InputSnapshot>, t: u64) -> InputSnapshot {
    match latest_at_or_before(m, t) {
        Some(k) => m[k],
        None => no_input(),
    }
}

/// What `latest_at_or_before` returns: the maximal held tick at or before
/// `t`, or nothing when no tick at or before `t` is held.
pub proof fn lemma_latest_characterization(m: Map<u64, InputSnapshot>, t: u64)
    ensures
        match latest_at_or_before(m, t) {
            Some(k) => m.contains_key(k) && k <= t && forall|j: u64|
                j <= t && #[trigger] m.contains_key(j) ==> j <= k,
            None => forall|j: u64| j <= t ==> !(#[trigger] m.contains_key(j)),
        },
    decreases t,
{
    if !m.contains_key(t) && t > 0 {
        lemma_latest_characterization(m, (t - 1) as u64);
    }
}

impl InputBuffer {
    /// The input to simulate tick `tick` with, under the hold-last policy.
    pub fn resolve_input(&self, tick: u64) -> (r: InputSnapshot)
        requires
            self.wf(),
        ensures
            r == held_input(self@, tick),
    {
        let mut found: bool = false;
        let mut best_t: u64 = 0;
        let mut best_s: InputSnapshot = InputSnapshot::released();
        let mut i: usize = 0;
        while i < RING_DEPTH as usize
            invariant
                self.wf(),
                i <= RING_DEPTH,
                !found ==> forall|j: u64|
                    #[trigger] self@.contains_key(j) && j % RING_DEPTH < i ==> j > tick,
                found ==> self@.contains_key(best_t) && best_t <= tick && self@[best_t] == best_s,
                found ==> forall|j: u64|
                    #[trigger] self@.contains_key(j) && j % RING_DEPTH < i && j <= tick ==> j
                        <= best_t,
            decreases RING_DEPTH as usize - i,
        {
            match self.slots[i] {
                Some((t, s)) => {
                    if t <= tick && (!found || t > best_t) {
                        assert(self@.contains_key(t));
                        found = true;
                        best_t = t;
                        best_s = s;
                    }
                },
                None => {},
            }
            i = i + 1;
        }
        proof {
            lemma_latest_characterization(self@, tick);
        }
        if found {
            best_s
        } else {
            InputSnapshot::released()
        }
    }
}

} // verus!
