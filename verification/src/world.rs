//! The agent's map of the arena: the last sighting of every tile it has ever seen.

use std::collections::HashMap;
use vstd::prelude::*;
use crate::geometry::{TileOffset, plus};
use crate::tile::{Tile, TileInfo, TileObservation, record_of};

verus! {

broadcast use vstd::std_specs::hash::group_hash_axioms;

/// The map after the sightings `obs`, made from `origin`, have been written into `w` one
/// after the other: a later sighting of a tile replaces an earlier one.
pub open spec fn merged(
    w: Map<TileOffset, TileInfo>,
    origin: TileOffset,
    obs: Seq<TileObservation>,
) -> Map<TileOffset, TileInfo>
    decreases obs.len(),
{
    if obs.len() == 0 {
        w
    } else {
        merged(w, origin, obs.drop_last()).insert(
            plus(obs.last().offset, origin),
            record_of(obs.last(), origin),
        )
    }
}

/// The list of known positions after the sightings `obs`: each position joins the end of
/// the list when it is seen for the first time.
pub open spec fn sighted(known: Seq<TileOffset>, origin: TileOffset, obs: Seq<TileObservation>) -> Seq<
    TileOffset,
>
    decreases obs.len(),
{
    if obs.len() == 0 {
        known
    } else {
        let before = sighted(known, origin, obs.drop_last());
        let p = plus(obs.last().offset, origin);
        if before.contains(p) {
            before
        } else {
            before.push(p)
        }
    }
}

/// The positions among the first `n` of `known` that `w` records as hill, in that order.
pub open spec fn hills_among(w: Map<TileOffset, TileInfo>, known: Seq<TileOffset>, n: nat) -> Seq<
    TileOffset,
>
    decreases n,
{
    if n == 0 || n > known.len() {
        Seq::empty()
    } else {
        let before = hills_among(w, known, (n - 1) as nat);
        let p = known[n - 1];
        if w.contains_key(p) && w[p].tile is Hill {
            before.push(p)
        } else {
            before
        }
    }
}

/// All known hill positions, in the order in which they were first seen.
pub open spec fn hills_of(w: Map<TileOffset, TileInfo>, known: Seq<TileOffset>) -> Seq<TileOffset> {
    hills_among(w, known, known.len())
}

/// The key under which a position is stored: both coordinates shifted to be non-negative,
/// `x` in the upper and `y` in the lower half.
pub open spec fn key_of(p: TileOffset) -> u64 {
    ((p.0 + 0x8000_0000) * 0x1_0000_0000 + (p.1 + 0x8000_0000)) as u64
}

/// Different positions have different keys.
pub proof fn lemma_key_injective(p: TileOffset, q: TileOffset)
    ensures
        key_of(p) == key_of(q) <==> p == q,
{
}

fn key(p: TileOffset) -> (r: u64)
    ensures
        r == key_of(p),
{
    let x: u64 = (p.0 as i64 + 0x8000_0000) as u64;
    let y: u64 = (p.1 as i64 + 0x8000_0000) as u64;
    x * 0x1_0000_0000 + y
}

/// A growing map from position to the last sighting of the tile there. Nothing is ever
/// removed from it.
pub struct World {
    cells: HashMap<u64, TileInfo>,
    order: Vec<TileOffset>,
}

impl View for World {
    type V = Map<TileOffset, TileInfo>;

    closed spec fn view(&self) -> Map<TileOffset, TileInfo> {
        Map::new(
            |p: TileOffset| self.cells@.contains_key(key_of(p)),
            |p: TileOffset| self.cells@[key_of(p)],
        )
    }
}

/// The list `order` holds exactly the positions that `cells` has a record for, and each
/// record carries the position it is stored at.
spec fn consistent(cells: Map<u64, TileInfo>, order: Seq<TileOffset>) -> bool {
    &&& forall|p: TileOffset| cells.contains_key(key_of(p)) <==> #[trigger] order.contains(p)
    &&& forall|p: TileOffset| #[trigger] cells.contains_key(key_of(p)) ==> cells[key_of(p)].xy == p
}

/// Writes `info` at `p` into the two parts of a map.
fn put(cells: &mut HashMap<u64, TileInfo>, order: &mut Vec<TileOffset>, p: TileOffset, info: TileInfo)
    requires
        consistent(old(cells)@, old(order)@),
        info.xy == p,
    ensures
        consistent(final(cells)@, final(order)@),
        final(cells)@ == old(cells)@.insert(key_of(p), info),
        final(order)@ == (if old(cells)@.contains_key(key_of(p)) {
            old(order)@
        } else {
            old(order)@.push(p)
        }),
{
    let k = key(p);
    if !cells.contains_key(&k) {
        order.push(p);
    }
    cells.insert(k, info);
    proof {
        let prev = old(order)@;
        let after = final(order)@;
        assert forall|q: TileOffset| key_of(q) == k <==> q == p by {
            lemma_key_injective(q, p);
        }
        assert(old(cells)@.contains_key(key_of(p)) <==> prev.contains(p));
        assert forall|q: TileOffset| final(cells)@.contains_key(key_of(q)) <==> #[trigger] after.contains(
            q,
        ) by {
            assert(old(cells)@.contains_key(key_of(q)) <==> prev.contains(q));
            if old(cells)@.contains_key(key_of(p)) {
                assert(after == prev);
            } else {
                assert(after == prev.push(p));
                assert(after[prev.len() as int] == p);
                if prev.contains(q) {
                    let i = choose|i: int| 0 <= i < prev.len() && prev[i] == q;
                    assert(after[i] == q);
                }
                if after.contains(q) {
                    let j = choose|j: int| 0 <= j < after.len() && after[j] == q;
                    if j < prev.len() {
                        assert(prev[j] == q);
                    }
                }
            }
        }
    }
}

impl World {
    #[verifier::type_invariant]
    spec fn wf(&self) -> bool {
        consistent(self.cells@, self.order@)
    }

    /// The recorded positions, in the order in which they were first seen.
    pub closed spec fn known(&self) -> Seq<TileOffset> {
        self.order@
    }

    pub fn new() -> (r: World)
        ensures
            r@ == Map::<TileOffset, TileInfo>::empty(),
            r.known() == Seq::<TileOffset>::empty(),
    {
        let r = World { cells: HashMap::new(), order: Vec::new() };
        assert(r@ =~= Map::<TileOffset, TileInfo>::empty());
        r
    }

    /// The record at `p`, if the tile there was ever seen. A record carries the position
    /// it is stored at.
    pub fn get(&self, p: TileOffset) -> (r: Option<TileInfo>)
        ensures
            r == (if self@.contains_key(p) {
                Some(self@[p])
            } else {
                None
            }),
            r matches Some(info) ==> info.xy == p,
    {
        proof {
            use_type_invariant(self);
        }
        let k = key(p);
        match self.cells.get(&k) {
            Some(info) => Some(*info),
            None => None,
        }
    }

    /// Takes in one turn's sightings, made from `pos`.
    pub fn observe(&mut self, pos: TileOffset, nearby: &Vec<TileObservation>)
        ensures
            final(self)@ == merged(old(self)@, pos, nearby@),
            final(self).known() == sighted(old(self).known(), pos, nearby@),
    {
        proof {
            use_type_invariant(&*self);
        }
        let mut taken = World::new();
        std::mem::swap(self, &mut taken);
        let World { mut cells, mut order } = taken;
        let ghost start = World { cells, order };
        let mut i: usize = 0;
        while i < nearby.len()
            invariant
                0 <= i <= nearby.len(),
                consistent(cells@, order@),
                (World { cells, order })@ == merged(start@, pos, nearby@.take(i as int)),
                order@ == sighted(start.known(), pos, nearby@.take(i as int)),
            decreases nearby.len() - i,
        {
            let s = nearby[i];
            let at = s.offset.add(pos);
            let ghost before = World { cells, order };
            proof {
                assert(nearby@.take(i + 1).drop_last() =~= nearby@.take(i as int));
                assert(nearby@.take(i + 1).last() == s);
            }
            put(&mut cells, &mut order, at, s.record(pos));
            proof {
                assert forall|q: TileOffset| key_of(q) == key_of(at) <==> q == at by {
                    lemma_key_injective(q, at);
                }
                assert((World { cells, order })@ =~= before@.insert(at, record_of(s, pos)));
                assert(before@.contains_key(at) <==> before.known().contains(at));
            }
            i = i + 1;
        }
        proof {
            assert(nearby@.take(i as int) =~= nearby@);
        }
        *self = World { cells, order };
    }

    /// The known hill positions, in the order in which they were first seen.
    pub fn get_hills(&self) -> (r: Vec<TileOffset>)
        ensures
            r@ == hills_of(self@, self.known()),
            forall|p: TileOffset| r@.contains(p) <==> self@.contains_key(p) && self@[p].tile is Hill,
    {
        proof {
            use_type_invariant(self);
        }
        let mut hills: Vec<TileOffset> = Vec::new();
        let mut i: usize = 0;
        while i < self.order.len()
            invariant
                0 <= i <= self.order.len(),
                hills@ == hills_among(self@, self.known(), i as nat),
            decreases self.order.len() - i,
        {
            let p = self.order[i];
            if let Some(info) = self.get(p) {
                if let Tile::Hill = info.tile {
                    hills.push(p);
                }
            }
            i = i + 1;
        }
        proof {
            lemma_hills_among(self@, self.known(), self.known().len());
            assert forall|p: TileOffset| hills@.contains(p) <==> self@.contains_key(p)
                && self@[p].tile is Hill by {
                if self@.contains_key(p) && self@[p].tile is Hill {
                    assert(self.known().contains(p));
                }
            }
        }
        hills
    }
}

/// The hills among the first `n` known positions are exactly those of the first `n` that
/// the map records as hill.
pub proof fn lemma_hills_among(w: Map<TileOffset, TileInfo>, known: Seq<TileOffset>, n: nat)
    requires
        n <= known.len(),
    ensures
        forall|p: TileOffset| #[trigger]
            hills_among(w, known, n).contains(p) <==> w.contains_key(p) && w[p].tile is Hill && (
            exists|i: int| 0 <= i < n && known[i] == p),
    decreases n,
{
    if n > 0 {
        lemma_hills_among(w, known, (n - 1) as nat);
        let before = hills_among(w, known, (n - 1) as nat);
        let last = known[n - 1];
        let now = hills_among(w, known, n);
        assert forall|p: TileOffset| #[trigger]
            now.contains(p) <==> w.contains_key(p) && w[p].tile is Hill && (exists|i: int|
                0 <= i < n && known[i] == p) by {
            if now.contains(p) {
                let j = choose|j: int| 0 <= j < now.len() && now[j] == p;
                if j < before.len() {
                    assert(before[j] == p);
                    assert(before.contains(p));
                    let i = choose|i: int| 0 <= i < n - 1 && known[i] == p;
                    assert(0 <= i < n && known[i] == p);
                } else {
                    assert(p == last);
                    assert(0 <= n - 1 < n && known[n - 1] == p);
                }
            }
            if w.contains_key(p) && w[p].tile is Hill && (exists|i: int|
                0 <= i < n && known[i] == p) {
                let i = choose|i: int| 0 <= i < n && known[i] == p;
                if i < n - 1 {
                    assert(before.contains(p));
                    let j = choose|j: int| 0 <= j < before.len() && before[j] == p;
                    assert(now[j] == p);
                } else {
                    assert(now[now.len() - 1] == p);
                }
            }
        }
    }
}

/// After a turn's sightings every reported position has a record, and it is the record of
/// the last sighting that reported it.
pub proof fn lemma_last_sighting_wins(
    w: Map<TileOffset, TileInfo>,
    origin: TileOffset,
    obs: Seq<TileObservation>,
    i: int,
)
    requires
        0 <= i < obs.len(),
        forall|j: int| i < j < obs.len() ==> plus(obs[j].offset, origin) != plus(obs[i].offset, origin),
    ensures
        merged(w, origin, obs).contains_key(plus(obs[i].offset, origin)),
        merged(w, origin, obs)[plus(obs[i].offset, origin)] == record_of(obs[i], origin),
    decreases obs.len(),
{
    if i < obs.len() - 1 {
        lemma_last_sighting_wins(w, origin, obs.drop_last(), i);
    }
}

/// A position that no sighting of the turn reports keeps what the map held for it, and
/// nothing that was recorded is ever lost.
pub proof fn lemma_unsighted_kept(
    w: Map<TileOffset, TileInfo>,
    origin: TileOffset,
    obs: Seq<TileObservation>,
    p: TileOffset,
)
    ensures
        w.contains_key(p) ==> merged(w, origin, obs).contains_key(p),
        (forall|j: int| 0 <= j < obs.len() ==> plus(obs[j].offset, origin) != p) ==> (merged(
            w,
            origin,
            obs,
        ).contains_key(p) <==> w.contains_key(p)) && merged(w, origin, obs)[p] == w[p],
    decreases obs.len(),
{
    if obs.len() > 0 {
        lemma_unsighted_kept(w, origin, obs.drop_last(), p);
    }
}

} // verus!
