//! Pre-spawn matching: merging speculatively spawned client entities with
//! their later-arriving server counterparts by content hash.
//!
//! A client that spawns an entity speculatively (a fired bullet) registers
//! it under a fingerprint of the spawn tick, the entity's simulation state
//! and a caller-supplied salt (the shooting player's id, to tell apart
//! otherwise-identical simultaneous spawns). When the server's replicated
//! entity arrives carrying an equal hash, the local entity is merged with
//! it instead of a duplicate being created; the merge happens at most once
//! per entry, and entries that wait longer than the match window are
//! expired.

use crate::body::{BodyModel, BodyState};
use crate::input::InputSnapshot;
use crate::vec2::{V2, Vec2i};
use vstd::prelude::*;

verus! {

/// A player's connection identity; its bits salt the pre-spawn hash.
#[derive(Clone, Copy, PartialEq, Eq, Structural, Debug, Hash)]
pub struct PlayerId(pub u64);

/// FNV-1a 64-bit offset basis.
pub const FNV64_OFFSET: u64 = 0xcbf2_9ce4_8422_2325;

/// FNV-1a 64-bit prime.
pub const FNV64_PRIME: u64 = 0x100_0000_01b3;

/// 64-bit wrapping product.
pub open spec fn wmul64(a: u64, b: u64) -> u64 {
    ((a as nat * b as nat) % 0x1_0000_0000_0000_0000nat) as u64
}

/// FNV-1a folded over 64-bit words: deterministic on every peer, so equal
/// spawn data always produces equal fingerprints.
pub open spec fn fnv1a64(words: Seq<u64>) -> u64
    decreases words.len(),
{
    if words.len() == 0 {
        FNV64_OFFSET
    } else {
        wmul64(fnv1a64(words.drop_last()) ^ words.last(), FNV64_PRIME)
    }
}

/// The words a pre-spawn fingerprint covers: spawn tick, salt, and the
/// entity's simulation-relevant component values in order.
pub open spec fn prespawn_words(tick: u64, state: BodyState, salt: u64) -> Seq<u64> {
    seq![
        tick,
        salt,
        state.pos.x as u64,
        state.pos.y as u64,
        state.vel.x as u64,
        state.vel.y as u64,
        state.rot as u64,
        state.ang as u64,
    ]
}

/// The pre-spawn content hash.
pub open spec fn prespawn_hash(tick: u64, state: BodyState, salt: u64) -> u64 {
    fnv1a64(prespawn_words(tick, state, salt))
}

fn fnv_step(h: u64, w: u64) -> (r: u64)
    ensures
        r == wmul64(h ^ w, FNV64_PRIME),
{
    (h ^ w).wrapping_mul(FNV64_PRIME)
}

/// Compute the pre-spawn content hash of an entity spawned at `tick` with
/// state `state`, salted with `salt`.
pub fn compute_prespawn_hash(tick: u64, state: &BodyState, salt: u64) -> (h: u64)
    ensures
        h == prespawn_hash(tick, *state, salt),
{
    let mut words: Vec<u64> = Vec::new();
    words.push(tick);
    words.push(salt);
    words.push(#[verifier::truncate] (state.pos.x as u64));
    words.push(#[verifier::truncate] (state.pos.y as u64));
    words.push(#[verifier::truncate] (state.vel.x as u64));
    words.push(#[verifier::truncate] (state.vel.y as u64));
    words.push(#[verifier::truncate] (state.rot as u64));
    words.push(#[verifier::truncate] (state.ang as u64));
    proof {
        assert(words@ =~= prespawn_words(tick, *state, salt));
    }
    let mut h: u64 = FNV64_OFFSET;
    let mut i: usize = 0;
    while i < words.len()
        invariant
            i <= words@.len(),
            h == fnv1a64(words@.take(i as int)),
        decreases words@.len() - i,
    {
        proof {
            assert(words@.take(i as int + 1).drop_last() =~= words@.take(i as int));
            assert(words@.take(i as int + 1).last() == words@[i as int]);
        }
        h = fnv_step(h, words[i]);
        i = i + 1;
    }
    proof {
        assert(words@.take(words@.len() as int) =~= words@);
    }
    h
}

/// One registered speculative spawn.
#[derive(Clone, Copy, PartialEq, Eq, Structural, Debug)]
pub struct PreSpawnEntry {
    pub hash: u64,
    pub local_entity: u64,
    pub spawn_tick: u64,
    pub matched: bool,
}

/// No two entries share a hash.
pub open spec fn unique_hashes(s: Seq<PreSpawnEntry>) -> bool {
    forall|i: int, j: int|
        0 <= i < j < s.len() ==> (#[trigger] s[i]).hash != (#[trigger] s[j]).hash
}

/// The registry as a map from hash to entry.
pub open spec fn entries_map(s: Seq<PreSpawnEntry>) -> Map<u64, PreSpawnEntry>
    decreases s.len(),
{
    if s.len() == 0 {
        Map::empty()
    } else {
        entries_map(s.drop_last()).insert(s.last().hash, s.last())
    }
}

proof fn lemma_entries_map_props(s: Seq<PreSpawnEntry>)
    requires
        unique_hashes(s),
    ensures
        forall|i: int|
            0 <= i < s.len() ==> entries_map(s).contains_key((#[trigger] s[i]).hash)
                && entries_map(s)[s[i].hash] == s[i],
        forall|h: u64|
            #[trigger] entries_map(s).contains_key(h) ==> exists|i: int|
                0 <= i < s.len() && (#[trigger] s[i]).hash == h,
    decreases s.len(),
{
    if s.len() > 0 {
        assert(unique_hashes(s.drop_last())) by {
            assert(forall|i: int|
                0 <= i < s.len() - 1 ==> #[trigger] s.drop_last()[i] == s[i]);
        }
        lemma_entries_map_props(s.drop_last());
        assert forall|i: int| 0 <= i < s.len() implies entries_map(s).contains_key(
            (#[trigger] s[i]).hash,
        ) && entries_map(s)[s[i].hash] == s[i] by {
            if i < s.len() - 1 {
                assert(s.drop_last()[i] == s[i]);
                assert(s[i].hash != s.last().hash);
            }
        }
        assert forall|h: u64| #[trigger] entries_map(s).contains_key(h) implies exists|i: int|
            0 <= i < s.len() && (#[trigger] s[i]).hash == h by {
            if h == s.last().hash {
                assert(s[s.len() - 1].hash == h);
            } else {
                assert(entries_map(s.drop_last()).contains_key(h));
                let i = choose|i: int|
                    0 <= i < s.drop_last().len() && (#[trigger] s.drop_last()[i]).hash == h;
                assert(s[i].hash == h);
            }
        }
    }
}

/// Whether a pre-spawn entry is kept at expiry: already merged, or still
/// inside the match window.
pub open spec fn keep_entry(e: PreSpawnEntry, oldest_allowed: u64) -> bool {
    e.matched || e.spawn_tick >= oldest_allowed
}

spec fn expire_seq(s: Seq<PreSpawnEntry>, oldest_allowed: u64) -> Seq<PreSpawnEntry>
    decreases s.len(),
{
    if s.len() == 0 {
        s
    } else {
        let r = expire_seq(s.drop_last(), oldest_allowed);
        if keep_entry(s.last(), oldest_allowed) {
            r.push(s.last())
        } else {
            r
        }
    }
}

proof fn lemma_expire_props(s: Seq<PreSpawnEntry>, oldest_allowed: u64)
    requires
        unique_hashes(s),
    ensures
        unique_hashes(expire_seq(s, oldest_allowed)),
        forall|h: u64|
            #[trigger] entries_map(expire_seq(s, oldest_allowed)).contains_key(h) <==> (
            entries_map(s).contains_key(h) && keep_entry(entries_map(s)[h], oldest_allowed)),
        forall|h: u64|
            entries_map(expire_seq(s, oldest_allowed)).contains_key(h)
                ==> #[trigger] entries_map(expire_seq(s, oldest_allowed))[h] == entries_map(s)[h],
    decreases s.len(),
{
    if s.len() > 0 {
        let d = s.drop_last();
        let l = s.last();
        assert(unique_hashes(d)) by {
            assert(forall|i: int| 0 <= i < s.len() - 1 ==> #[trigger] d[i] == s[i]);
        }
        lemma_expire_props(d, oldest_allowed);
        lemma_entries_map_props(d);
        lemma_entries_map_props(s);
        let ed = expire_seq(d, oldest_allowed);
        lemma_entries_map_props(ed);
        assert(!entries_map(d).contains_key(l.hash)) by {
            if entries_map(d).contains_key(l.hash) {
                let i = choose|i: int| 0 <= i < d.len() && (#[trigger] d[i]).hash == l.hash;
                assert(s[i].hash == s[s.len() - 1].hash);
            }
        }
        let es = expire_seq(s, oldest_allowed);
        if keep_entry(l, oldest_allowed) {
            assert(unique_hashes(ed.push(l))) by {
                assert forall|i: int| 0 <= i < ed.len() implies (#[trigger] ed[i]).hash != l.hash
                    by {
                    assert(entries_map(ed).contains_key(ed[i].hash));
                }
                assert(forall|i: int| 0 <= i < ed.len() ==> #[trigger] ed.push(l)[i] == ed[i]);
            }
            assert(es == ed.push(l));
            assert(es.drop_last() =~= ed);
            assert(es.last() == l);
            assert(entries_map(es) == entries_map(ed).insert(l.hash, l));
        } else {
            assert(es == ed);
        }
        assert(entries_map(s) == entries_map(d).insert(l.hash, l));
        assert forall|h: u64| #[trigger] entries_map(es).contains_key(h) <==> (entries_map(
            s,
        ).contains_key(h) && keep_entry(entries_map(s)[h], oldest_allowed)) by {
            if h == l.hash {
                assert(entries_map(s)[h] == l);
                assert(!entries_map(ed).contains_key(h));
            } else {
                assert(entries_map(s).contains_key(h) == entries_map(d).contains_key(h));
                assert(entries_map(d).contains_key(h) ==> entries_map(s)[h] == entries_map(d)[h]);
            }
        }
        assert forall|h: u64| entries_map(es).contains_key(h) implies #[trigger] entries_map(
            es,
        )[h] == entries_map(s)[h] by {
            if h != l.hash {
                assert(entries_map(es)[h] == entries_map(ed)[h]);
                assert(entries_map(s)[h] == entries_map(d)[h]);
            }
        }
    }
}

/// The outcome of delivering a server-replicated entity's hash.
#[derive(Clone, Copy, PartialEq, Eq, Structural, Debug)]
pub enum MergeOutcome {
    /// A registered, not-yet-merged local entity had the same hash: it
    /// adopts the Predicted role bound to the server entity, and no
    /// duplicate is created. Carries the local entity's id.
    Merged(u64),
    /// No unmatched local entity has this hash: the server entity proceeds
    /// as an ordinary confirmed spawn.
    NoMatch,
}

/// Whether delivering `h` against registry `m` merges.
pub open spec fn merge_hits(m: Map<u64, PreSpawnEntry>, h: u64) -> bool {
    m.contains_key(h) && !m[h].matched
}

/// The registry after delivering `h`: the matched entry is marked, at most
/// once; everything else is untouched.
pub open spec fn merge_next(m: Map<u64, PreSpawnEntry>, h: u64) -> Map<u64, PreSpawnEntry> {
    if merge_hits(m, h) {
        m.insert(h, PreSpawnEntry { matched: true, ..m[h] })
    } else {
        m
    }
}

/// Registry of speculatively spawned local entities awaiting their server
/// counterparts, keyed by content hash.
pub struct PreSpawnMatcher {
    entries: Vec<PreSpawnEntry>,
}

impl View for PreSpawnMatcher {
    type V = Map<u64, PreSpawnEntry>;

    /// The registry as a map from hash to entry.
    closed spec fn view(&self) -> Map<u64, PreSpawnEntry> {
        entries_map(self.entries@)
    }
}

impl PreSpawnMatcher {
    pub closed spec fn wf(self) -> bool {
        unique_hashes(self.entries@)
    }

    pub fn new() -> (r: PreSpawnMatcher)
        ensures
            r.wf(),
            r@ == Map::<u64, PreSpawnEntry>::empty(),
    {
        PreSpawnMatcher { entries: Vec::new() }
    }

    /// The index of the entry with `hash`, if one is registered.
    fn find_entry(&self, hash: u64) -> (r: Option<usize>)
        requires
            self.wf(),
        ensures
            match r {
                Some(i) => i < self.entries@.len() && self.entries@[i as int].hash == hash,
                None => forall|j: int|
                    0 <= j < self.entries@.len() ==> (#[trigger] self.entries@[j]).hash != hash,
            },
    {
        let mut i: usize = 0;
        while i < self.entries.len()
            invariant
                i <= self.entries@.len(),
                forall|j: int| 0 <= j < i ==> (#[trigger] self.entries@[j]).hash != hash,
            decreases self.entries@.len() - i,
        {
            if self.entries[i].hash == hash {
                return Some(i);
            }
            i = i + 1;
        }
        None
    }

    /// Register a local speculative spawn under `hash`. On a hash collision
    /// with an existing registration the first one wins: the new entity is
    /// rejected and falls back to waiting for its own server entity.
    pub fn register(&mut self, hash: u64, local_entity: u64, spawn_tick: u64) -> (ok: bool)
        requires
            old(self).wf(),
        ensures
            final(self).wf(),
            ok <==> !old(self)@.contains_key(hash),
            ok ==> final(self)@ == old(self)@.insert(
                hash,
                PreSpawnEntry { hash, local_entity, spawn_tick, matched: false },
            ),
            !ok ==> final(self)@ == old(self)@,
    {
        proof {
            lemma_entries_map_props(self.entries@);
        }
        match self.find_entry(hash) {
            Some(_) => false,
            None => {
                let e = PreSpawnEntry { hash, local_entity, spawn_tick, matched: false };
                let ghost pre = self.entries@;
                self.entries.push(e);
                proof {
                    assert(self.entries@.drop_last() =~= pre);
                    assert(forall|i: int| 0 <= i < pre.len() ==> #[trigger] self.entries@[i] == pre[i]);
                }
                true
            },
        }
    }

    /// Deliver the hash carried by a server-replicated entity. Merges with
    /// the registered unmatched local entity of equal hash, if any, marking
    /// it so that a second delivery of the same hash is a no-op.
    pub fn match_server(&mut self, hash: u64) -> (r: MergeOutcome)
        requires
            old(self).wf(),
        ensures
            final(self).wf(),
            (r is Merged) <==> merge_hits(old(self)@, hash),
            r matches MergeOutcome::Merged(e) ==> e == old(self)@[hash].local_entity,
            final(self)@ == merge_next(old(self)@, hash),
    {
        proof {
            lemma_entries_map_props(self.entries@);
        }
        match self.find_entry(hash) {
            None => MergeOutcome::NoMatch,
            Some(i) => {
                let e = self.entries[i];
                if e.matched {
                    MergeOutcome::NoMatch
                } else {
                    let updated = PreSpawnEntry { matched: true, ..e };
                    let ghost pre = self.entries@;
                    self.entries.set(i, updated);
                    proof {
                        lemma_entries_map_update(pre, i as int, updated);
                    }
                    MergeOutcome::Merged(e.local_entity)
                }
            },
        }
    }

    /// Drop every unmatched registration older than the match window:
    /// entries spawned before `oldest_allowed` that never merged are
    /// discarded as mispredictions. Matched entries and young entries stay.
    pub fn expire(&mut self, oldest_allowed: u64)
        requires
            old(self).wf(),
        ensures
            final(self).wf(),
            forall|h: u64|
                #[trigger] final(self)@.contains_key(h) <==> (old(self)@.contains_key(h)
                    && keep_entry(old(self)@[h], oldest_allowed)),
            forall|h: u64|
                final(self)@.contains_key(h) ==> #[trigger] final(self)@[h] == old(self)@[h],
    {
        let ghost s = self.entries@;
        let mut kept: Vec<PreSpawnEntry> = Vec::new();
        let mut i: usize = 0;
        while i < self.entries.len()
            invariant
                i <= self.entries@.len(),
                self.entries@ == s,
                kept@ == expire_seq(s.take(i as int), oldest_allowed),
            decreases self.entries@.len() - i,
        {
            proof {
                assert(s.take(i as int + 1).drop_last() =~= s.take(i as int));
                assert(s.take(i as int + 1).last() == s[i as int]);
            }
            let e = self.entries[i];
            if e.matched || e.spawn_tick >= oldest_allowed {
                kept.push(e);
            }
            i = i + 1;
        }
        proof {
            assert(s.take(s.len() as int) =~= s);
            lemma_expire_props(s, oldest_allowed);
        }
        self.entries = kept;
    }
}

proof fn lemma_entries_map_update(s: Seq<PreSpawnEntry>, i: int, e: PreSpawnEntry)
    requires
        unique_hashes(s),
        0 <= i < s.len(),
        e.hash == s[i].hash,
    ensures
        unique_hashes(s.update(i, e)),
        entries_map(s.update(i, e)) == entries_map(s).insert(e.hash, e),
    decreases s.len(),
{
    assert(unique_hashes(s.update(i, e))) by {
        assert(forall|j: int|
            0 <= j < s.len() && j != i ==> #[trigger] s.update(i, e)[j] == s[j]);
        assert(s.update(i, e)[i] == e);
    }
    if i == s.len() - 1 {
        assert(s.update(i, e).drop_last() =~= s.drop_last());
        assert(s.update(i, e).last() == e);
        assert(entries_map(s.update(i, e)) == entries_map(s.drop_last()).insert(e.hash, e));
        assert(entries_map(s) == entries_map(s.drop_last()).insert(s[i].hash, s[i]));
        assert(entries_map(s.drop_last()).insert(s[i].hash, s[i]).insert(e.hash, e)
            =~= entries_map(s.drop_last()).insert(e.hash, e));
    } else {
        let d = s.drop_last();
        let l = s.last();
        assert(unique_hashes(d)) by {
            assert(forall|j: int| 0 <= j < s.len() - 1 ==> #[trigger] d[j] == s[j]);
        }
        assert(d[i] == s[i]);
        lemma_entries_map_update(d, i, e);
        assert(s.update(i, e).drop_last() =~= d.update(i, e));
        assert(s.update(i, e).last() == l);
        assert(entries_map(s.update(i, e)) == entries_map(d).insert(e.hash, e).insert(l.hash, l));
        assert(e.hash != l.hash) by {
            assert(s[i].hash != s[s.len() - 1].hash);
        }
        assert(entries_map(d).insert(e.hash, e).insert(l.hash, l) =~= entries_map(d).insert(
            l.hash,
            l,
        ).insert(e.hash, e));
    }
}

/// Speed of a fired bullet (milliunits per second, along +x).
pub const BULLET_SPEED: i64 = 20_000;

/// A bullet spawn decision: the bullet's initial state and its pre-spawn
/// registration data.
#[derive(Clone, Copy, PartialEq, Eq, Structural, Debug)]
pub struct BulletSpawn {
    pub state: BodyState,
    pub salt: u64,
    pub hash: u64,
}

/// The initial state of a bullet fired by a shooter at `shooter_pos`.
pub open spec fn bullet_state(shooter_pos: V2) -> BodyModel {
    BodyModel { pos: shooter_pos, vel: V2 { x: BULLET_SPEED as int, y: 0 }, rot: 0, ang: 0 }
}

/// The shoot decision, identical on client and server: on the rising edge
/// of the shoot action (held now, not held in the previous snapshot) a
/// bullet is spawned at the shooter's position with the fixed bullet
/// velocity, fingerprinted for pre-spawn matching under a salt derived from
/// the shooting player's id; otherwise nothing happens.
pub fn shoot(
    prev_input: &InputSnapshot,
    input: &InputSnapshot,
    shooter: &BodyState,
    shooter_id: PlayerId,
    tick: u64,
) -> (r: Option<BulletSpawn>)
    ensures
        (r is Some) <==> (input.shoot && !prev_input.shoot),
        r matches Some(b) ==> b.state@ == bullet_state(shooter@.pos) && b.salt == shooter_id.0
            && b.hash == prespawn_hash(tick, b.state, shooter_id.0),
{
    if input.shoot && !prev_input.shoot {
        let state = BodyState {
            pos: shooter.pos,
            vel: Vec2i { x: BULLET_SPEED, y: 0 },
            rot: 0,
            ang: 0,
        };
        let salt = shooter_id.0;
        let hash = compute_prespawn_hash(tick, &state, salt);
        Some(BulletSpawn { state, salt, hash })
    } else {
        None
    }
}

} // verus!
