//! Shortest routes over the known, enterable part of the map.
//!
//! The breadth-first search itself is the `pathfinding` crate's; this module gives it
//! the graph and the goal, and states what comes back.

use vstd::prelude::*;
use crate::geometry::{Direction, TileOffset, plus, unit};
use crate::tile::{TileInfo, enterable};
use crate::world::World;

verus! {

/// The tile at `q`, if it is known and can be entered; else nothing.
pub open spec fn open_at(w: Map<TileOffset, TileInfo>, q: TileOffset) -> Seq<TileOffset> {
    if w.contains_key(q) && enterable(w[q]) {
        seq![q]
    } else {
        Seq::empty()
    }
}

/// The neighbours of `p` that a route may continue to, in the order in which they are
/// tried: east, west, north, south.
pub open spec fn successors_of(w: Map<TileOffset, TileInfo>, p: TileOffset) -> Seq<TileOffset> {
    open_at(w, plus(p, unit(Direction::East))) + open_at(w, plus(p, unit(Direction::West)))
        + open_at(w, plus(p, unit(Direction::North))) + open_at(
        w,
        plus(p, unit(Direction::South)),
    )
}

/// `b` is one step from `a`.
pub open spec fn adjacent(a: TileOffset, b: TileOffset) -> bool {
    b == plus(a, unit(Direction::East)) || b == plus(a, unit(Direction::West)) || b == plus(
        a,
        unit(Direction::North),
    ) || b == plus(a, unit(Direction::South))
}

/// A route may go from `a` to `b`: `b` is next to `a`, known, and can be entered.
pub open spec fn step_ok(w: Map<TileOffset, TileInfo>, a: TileOffset, b: TileOffset) -> bool {
    adjacent(a, b) && w.contains_key(b) && enterable(w[b])
}

/// Every move of `path` is a step that a route may take.
pub open spec fn is_route(w: Map<TileOffset, TileInfo>, path: Seq<TileOffset>) -> bool {
    path.len() > 0 && forall|i: int| 0 <= i < path.len() - 1 ==> #[trigger] step_ok(w, path[i], path[i + 1])
}

/// Whether `p` is a goal: with `member`, a position listed in `marks`; without, a
/// position not listed there.
pub open spec fn is_goal(marks: Seq<TileOffset>, member: bool, p: TileOffset) -> bool {
    marks.contains(p) == member
}

/// `path` is a route from `start` to a goal.
pub open spec fn reaches(
    w: Map<TileOffset, TileInfo>,
    start: TileOffset,
    marks: Seq<TileOffset>,
    member: bool,
    path: Seq<TileOffset>,
) -> bool {
    is_route(w, path) && path[0] == start && is_goal(marks, member, path.last())
}

/// `found` is what a search from `start` owes: a route to a goal that no other such route
/// undercuts in length, or nothing where no route reaches a goal.
pub open spec fn is_shortest(
    w: Map<TileOffset, TileInfo>,
    start: TileOffset,
    marks: Seq<TileOffset>,
    member: bool,
    found: Option<Seq<TileOffset>>,
) -> bool {
    match found {
        Some(path) => reaches(w, start, marks, member, path) && forall|other: Seq<TileOffset>| #[trigger]
            reaches(w, start, marks, member, other) ==> path.len() <= other.len(),
        None => forall|other: Seq<TileOffset>| !#[trigger] reaches(w, start, marks, member, other),
    }
}

/// The route that the breadth-first search returns from `start` over the map `world`
/// towards the goals that `marks` and `member` describe. Among several shortest routes it
/// is the one that the search's order of visiting picks.
pub uninterp spec fn bfs_path(
    start: TileOffset,
    world: Map<TileOffset, TileInfo>,
    marks: Seq<TileOffset>,
    member: bool,
) -> Option<Seq<TileOffset>>;

/// A search result as a value of the model.
pub open spec fn route_of(r: Option<Vec<TileOffset>>) -> Option<Seq<TileOffset>> {
    match r {
        Some(path) => Some(path@),
        None => None,
    }
}

/// Whether `list` holds `p`.
pub fn holds(list: &Vec<TileOffset>, p: &TileOffset) -> (r: bool)
    ensures
        r == list@.contains(*p),
{
    let mut i: usize = 0;
    while i < list.len()
        invariant
            0 <= i <= list.len(),
            forall|j: int| 0 <= j < i ==> list@[j] != *p,
        decreases list.len() - i,
    {
        if list[i] == *p {
            return true;
        }
        i = i + 1;
    }
    false
}

/// Whether `p` is a goal of the search described by `marks` and `member`.
pub fn is_target(p: &TileOffset, marks: &Vec<TileOffset>, member: bool) -> (r: bool)
    ensures
        r == is_goal(marks@, member, *p),
{
    holds(marks, p) == member
}

/// The known, enterable neighbours of `p`.
pub fn successors(p: &TileOffset, world: &World) -> (r: Vec<TileOffset>)
    ensures
        r@ == successors_of(world@, *p),
        forall|q: TileOffset| r@.contains(q) <==> step_ok(world@, *p, q),
{
    let nearby = [Direction::East, Direction::West, Direction::North, Direction::South];
    let mut found: Vec<TileOffset> = Vec::new();
    let ghost w = world@;
    let ghost e = open_at(w, plus(*p, unit(Direction::East)));
    let ghost ew = e + open_at(w, plus(*p, unit(Direction::West)));
    let ghost ewn = ew + open_at(w, plus(*p, unit(Direction::North)));
    let ghost ewns = ewn + open_at(w, plus(*p, unit(Direction::South)));
    let mut i: usize = 0;
    while i < 4
        invariant
            0 <= i <= 4,
            w == world@,
            nearby@ == seq![Direction::East, Direction::West, Direction::North, Direction::South],
            e == open_at(w, plus(*p, unit(Direction::East))),
            ew == e + open_at(w, plus(*p, unit(Direction::West))),
            ewn == ew + open_at(w, plus(*p, unit(Direction::North))),
            ewns == ewn + open_at(w, plus(*p, unit(Direction::South))),
            found@ == (if i == 0 {
                Seq::<TileOffset>::empty()
            } else if i == 1 {
                e
            } else if i == 2 {
                ew
            } else if i == 3 {
                ewn
            } else {
                ewns
            }),
        decreases 4 - i,
    {
        let q = p.add(nearby[i].extend(1));
        let ghost before = found@;
        if let Some(info) = world.get(q) {
            if info.is_enterable() {
                found.push(info.xy);
            }
        }
        proof {
            assert(found@ =~= before + open_at(w, q));
        }
        i = i + 1;
    }
    proof {
        assert forall|q: TileOffset| found@.contains(q) <==> step_ok(w, *p, q) by {
            let a = open_at(w, plus(*p, unit(Direction::East)));
            let b = open_at(w, plus(*p, unit(Direction::West)));
            let c = open_at(w, plus(*p, unit(Direction::North)));
            let d = open_at(w, plus(*p, unit(Direction::South)));
            assert(found@ == a + b + c + d);
            if step_ok(w, *p, q) {
                assert(open_at(w, q) =~= seq![q]);
                assert(open_at(w, q)[0] == q);
                let k: int = if q == plus(*p, unit(Direction::East)) {
                    0
                } else if q == plus(*p, unit(Direction::West)) {
                    a.len() as int
                } else if q == plus(*p, unit(Direction::North)) {
                    (a.len() + b.len()) as int
                } else {
                    (a.len() + b.len() + c.len()) as int
                };
                assert(found@[k] == q);
            }
            if found@.contains(q) {
                let j = choose|j: int| 0 <= j < found@.len() && found@[j] == q;
                assert(found@[j] == q);
            }
        }
    }
    found
}

/// Calls `pathfinding::prelude::bfs` from `start`, with `successors` for the graph and
/// `is_target` for the goal. Taken on trust from that crate: the search returns a route
/// from `start` to a goal with the least number of steps, start and goal included, or
/// nothing where no goal can be reached; and the same map, start and goals always give
/// the same route.
#[verifier::external_body]
pub(crate) fn shortest_path(
    start: &TileOffset,
    world: &World,
    marks: &Vec<TileOffset>,
    member: bool,
) -> (r: Option<Vec<TileOffset>>)
    ensures
        route_of(r) == bfs_path(*start, world@, marks@, member),
        is_shortest(world@, *start, marks@, member, route_of(r)),
{
    pathfinding::prelude::bfs(start, |p| successors(p, world), |p| is_target(p, marks, member))
}

/// A search from `start` for a position listed in `marks` (with `member`) or for one not
/// listed there (without).
pub fn search(start: &TileOffset, world: &World, marks: &Vec<TileOffset>, member: bool) -> (r: Option<
    Vec<TileOffset>,
>)
    ensures
        route_of(r) == bfs_path(*start, world@, marks@, member),
        is_shortest(world@, *start, marks@, member, route_of(r)),
        is_goal(marks@, member, *start) ==> route_of(r) == Some(seq![*start]),
        r is Some <==> exists|path: Seq<TileOffset>| reaches(world@, *start, marks@, member, path),
{
    let r = shortest_path(start, world, marks, member);
    proof {
        let single = seq![*start];
        if is_goal(marks@, member, *start) {
            assert(reaches(world@, *start, marks@, member, single));
            assert(route_of(r) is Some);
            let path = route_of(r).unwrap();
            assert(path.len() <= single.len());
            assert(path =~= single);
        }
        if r is Some {
            assert(reaches(world@, *start, marks@, member, route_of(r).unwrap()));
        }
    }
    r
}

/// A search is a function of the map, the start and the goals: equal inputs give equal
/// routes.
pub proof fn lemma_search_deterministic(
    start1: TileOffset,
    world1: Map<TileOffset, TileInfo>,
    marks1: Seq<TileOffset>,
    member1: bool,
    start2: TileOffset,
    world2: Map<TileOffset, TileInfo>,
    marks2: Seq<TileOffset>,
    member2: bool,
)
    requires
        start1 == start2,
        world1 == world2,
        marks1 == marks2,
        member1 == member2,
    ensures
        bfs_path(start1, world1, marks1, member1) == bfs_path(start2, world2, marks2, member2),
{
}

/// Two answers that a search may give to the same question have the same length: the
/// number of steps to the nearest goal.
pub proof fn lemma_shortest_length_unique(
    w: Map<TileOffset, TileInfo>,
    start: TileOffset,
    marks: Seq<TileOffset>,
    member: bool,
    a: Option<Seq<TileOffset>>,
    b: Option<Seq<TileOffset>>,
)
    requires
        is_shortest(w, start, marks, member, a),
        is_shortest(w, start, marks, member, b),
    ensures
        a is Some <==> b is Some,
        a is Some ==> a.unwrap().len() == b.unwrap().len(),
{
    if a is Some {
        assert(reaches(w, start, marks, member, a.unwrap()));
    }
    if b is Some {
        assert(reaches(w, start, marks, member, b.unwrap()));
    }
}

/// A shortest route to a goal passes no position twice.
pub proof fn lemma_shortest_has_no_repeats(
    w: Map<TileOffset, TileInfo>,
    start: TileOffset,
    marks: Seq<TileOffset>,
    member: bool,
    path: Seq<TileOffset>,
)
    requires
        is_shortest(w, start, marks, member, Some(path)),
    ensures
        path.no_duplicates(),
{
    assert forall|i: int, j: int| 0 <= i < j < path.len() implies path[i] != path[j] by {
        if path[i] == path[j] {
            let cut = path.subrange(0, i + 1) + path.subrange(j + 1, path.len() as int);
            assert(cut.len() == path.len() - (j - i));
            assert forall|k: int| 0 <= k < cut.len() - 1 implies #[trigger] step_ok(w, cut[k], cut[k + 1]) by {
                if k < i {
                    assert(cut[k] == path[k] && cut[k + 1] == path[k + 1]);
                    assert(step_ok(w, path[k], path[k + 1]));
                } else {
                    let m = k + (j - i);
                    assert(cut[k] == path[m]);
                    assert(cut[k + 1] == path[m + 1]);
                    assert(step_ok(w, path[m], path[m + 1]));
                }
            }
            assert(cut[0] == path[0]);
            assert(cut.last() == path.last());
            assert(reaches(w, start, marks, member, cut));
            assert(path.len() <= cut.len());
        }
    }
}

/// A route never enters a tile that cannot be entered, and never leaves the known map.
pub proof fn lemma_route_stays_open(w: Map<TileOffset, TileInfo>, path: Seq<TileOffset>, i: int)
    requires
        is_route(w, path),
        1 <= i < path.len(),
    ensures
        w.contains_key(path[i]),
        enterable(w[path[i]]),
        adjacent(path[i - 1], path[i]),
{
    assert(step_ok(w, path[i - 1], path[i - 1 + 1]));
}

} // verus!
