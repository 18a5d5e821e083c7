//! The agent: its state between turns, and the choice it makes each turn.

use vstd::prelude::*;
use crate::geometry::{
    Direction, TileOffset, get_left, heading_of, left_of, lemma_minus_plus, minus, plus, unit,
};
use crate::search::{
    bfs_path, holds, is_route, is_shortest, reaches, route_of, search, step_ok,
};
use crate::tile::{Tile, TileInfo, TileObservation, enterable, object_passable, record_of};
use crate::world::{World, hills_of, merged, sighted};

verus! {

/// What the agent does in a turn.
#[derive(Clone, Copy, Debug, PartialEq, Eq, Hash, Structural)]
pub enum Action {
    Move(Direction),
    StayStill,
    DropBombAndMove(Direction),
}

/// The agent's state, carried from turn to turn.
pub struct MyPlayer {
    /// The direction of the last move.
    pub dir: Direction,
    /// Set when the agent steps onto the hill; from then on it stays where it is.
    pub on_hill: bool,
    /// True until the first move.
    pub initial: bool,
    /// Everything seen so far.
    pub world: World,
    /// Where the agent stands, counted from where it started.
    pub pos: TileOffset,
    /// Every position the agent has moved to, oldest first.
    pub explored: Vec<TileOffset>,
}

/// The state after a turn together with the turn's action, as values of the model.
pub struct Outcome {
    pub dir: Direction,
    pub on_hill: bool,
    pub initial: bool,
    pub pos: TileOffset,
    pub explored: Seq<TileOffset>,
    pub action: Action,
}

/// The direction towards the first position of `path`, from index `i` on, that is a
/// single step away from `pos`.
pub open spec fn heading_along(path: Seq<TileOffset>, pos: TileOffset, i: int) -> Option<Direction>
    decreases path.len() - i,
{
    if i < 0 || i >= path.len() {
        None
    } else if heading_of(minus(path[i], pos)) is Some {
        heading_of(minus(path[i], pos))
    } else {
        heading_along(path, pos, i + 1)
    }
}

/// The direction that a search result gives, if it gives one.
pub open spec fn heading_from(find: Option<Seq<TileOffset>>, pos: TileOffset) -> Option<Direction> {
    match find {
        Some(path) => heading_along(path, pos, 0),
        None => None,
    }
}

/// The direction from the search for the hill, else from the search for unvisited ground.
pub open spec fn searched_heading(
    goal: Option<Seq<TileOffset>>,
    frontier: Option<Seq<TileOffset>>,
    pos: TileOffset,
) -> Option<Direction> {
    if heading_from(goal, pos) is Some {
        heading_from(goal, pos)
    } else {
        heading_from(frontier, pos)
    }
}

/// The first sighting in `nearby`, from index `i` on, that lies at offset `off`.
pub open spec fn seen_from(nearby: Seq<TileObservation>, off: TileOffset, i: int) -> Option<
    TileObservation,
>
    decreases nearby.len() - i,
{
    if i < 0 || i >= nearby.len() {
        None
    } else if nearby[i].offset == off {
        Some(nearby[i])
    } else {
        seen_from(nearby, off, i + 1)
    }
}

/// This turn's sightings show the tile next to `pos` in direction `dir`, and it can be
/// entered. A tile that was not sighted this turn is not confirmed.
pub open spec fn confirmed(nearby: Seq<TileObservation>, pos: TileOffset, dir: Direction) -> bool {
    match seen_from(nearby, unit(dir), 0) {
        Some(s) => enterable(record_of(s, pos)),
        None => false,
    }
}

/// The look around: up to `turns` times, stop with success at a confirmed direction, else
/// turn left. A turn towards a position that was never moved to counts as success too, but
/// does not stop the turning.
///
/// Novelty wins over safety here: a direction that was never tried is accepted even where
/// the sightings show a wall, a solid object or an enemy there. Only where every
/// neighbour has been moved to before does a walled-in agent stay still.
pub open spec fn scan(
    nearby: Seq<TileObservation>,
    pos: TileOffset,
    explored: Seq<TileOffset>,
    dir: Direction,
    found: bool,
    turns: nat,
) -> (Direction, bool)
    decreases turns,
{
    if turns == 0 {
        (dir, found)
    } else if confirmed(nearby, pos, dir) {
        (dir, true)
    } else {
        let next = left_of(dir);
        scan(
            nearby,
            pos,
            explored,
            next,
            found || !explored.contains(plus(pos, unit(next))),
            (turns - 1) as nat,
        )
    }
}

/// The direction chosen for the turn, and whether any was found: from the searches where
/// they give one, else from the look around.
pub open spec fn chosen(
    dir: Direction,
    pos: TileOffset,
    explored: Seq<TileOffset>,
    nearby: Seq<TileObservation>,
    goal: Option<Seq<TileOffset>>,
    frontier: Option<Seq<TileOffset>>,
) -> (Direction, bool) {
    match searched_heading(goal, frontier, pos) {
        Some(d) => (d, true),
        None => scan(nearby, pos, explored, dir, false, 4),
    }
}

/// The turn's result once the map is up to date and both searches have answered.
/// Without a direction the agent stays and nothing changes. With one it moves a step,
/// notes the new position, and drops a bomb behind it if it turned and this is not its
/// first move; it has reached the hill if the tile it moves to is known as hill.
pub open spec fn decide(
    dir: Direction,
    on_hill: bool,
    initial: bool,
    pos: TileOffset,
    explored: Seq<TileOffset>,
    w: Map<TileOffset, TileInfo>,
    nearby: Seq<TileObservation>,
    goal: Option<Seq<TileOffset>>,
    frontier: Option<Seq<TileOffset>>,
) -> Outcome {
    let (d, found) = chosen(dir, pos, explored, nearby, goal, frontier);
    let ahead = plus(pos, unit(d));
    if !found {
        Outcome { dir: d, on_hill, initial, pos, explored, action: Action::StayStill }
    } else {
        Outcome {
            dir: d,
            on_hill: on_hill || (w.contains_key(ahead) && w[ahead].tile is Hill),
            initial: false,
            pos: ahead,
            explored: explored.push(ahead),
            action: if d != dir && !initial {
                Action::DropBombAndMove(d)
            } else {
                Action::Move(d)
            },
        }
    }
}

/// The direction towards the first position of `path` that is a single step from `pos`.
pub fn first_heading(path: &Vec<TileOffset>, pos: TileOffset) -> (r: Option<Direction>)
    ensures
        r == heading_along(path@, pos, 0),
{
    let mut i: usize = 0;
    while i < path.len()
        invariant
            0 <= i <= path.len(),
            heading_along(path@, pos, i as int) == heading_along(path@, pos, 0),
        decreases path.len() - i,
    {
        let d = path[i].sub(pos).try_to_direction();
        if d.is_some() {
            return d;
        }
        i = i + 1;
    }
    None
}

/// The first sighting in `nearby` that lies at offset `off`.
pub fn sighting(nearby: &Vec<TileObservation>, off: TileOffset) -> (r: Option<TileObservation>)
    ensures
        r == seen_from(nearby@, off, 0),
{
    let mut i: usize = 0;
    while i < nearby.len()
        invariant
            0 <= i <= nearby.len(),
            seen_from(nearby@, off, i as int) == seen_from(nearby@, off, 0),
        decreases nearby.len() - i,
    {
        if nearby[i].offset == off {
            return Some(nearby[i]);
        }
        i = i + 1;
    }
    None
}

/// Whether this turn's sightings confirm that the agent can step from `pos` towards `dir`.
pub fn can_go(nearby: &Vec<TileObservation>, pos: TileOffset, dir: Direction) -> (r: bool)
    ensures
        r == confirmed(nearby@, pos, dir),
{
    match sighting(nearby, dir.extend(1)) {
        Some(s) => s.record(pos).is_enterable(),
        None => false,
    }
}

/// The look around from `dir`: the direction it ends on, and whether it found a way.
pub fn look_around(
    nearby: &Vec<TileObservation>,
    pos: TileOffset,
    explored: &Vec<TileOffset>,
    dir: Direction,
) -> (r: (Direction, bool))
    ensures
        r == scan(nearby@, pos, explored@, dir, false, 4),
{
    let mut d = dir;
    let mut found = false;
    let mut i: usize = 0;
    while i < 4
        invariant
            0 <= i <= 4,
            scan(nearby@, pos, explored@, d, found, (4 - i) as nat) == scan(
                nearby@,
                pos,
                explored@,
                dir,
                false,
                4,
            ),
        decreases 4 - i,
    {
        if can_go(nearby, pos, d) {
            return (d, true);
        }
        d = get_left(d);
        let next_pos = pos.add(d.extend(1));
        if !holds(explored, &next_pos) {
            found = true;
        }
        i = i + 1;
    }
    (d, found)
}

impl Default for MyPlayer {
    /// The agent at the start of a match: at the origin, facing west, nothing seen.
    fn default() -> (r: Self)
        ensures
            r.dir == Direction::West,
            !r.on_hill,
            r.initial,
            r.world@ == Map::<TileOffset, TileInfo>::empty(),
            r.world.known() == Seq::<TileOffset>::empty(),
            r.pos == TileOffset(0, 0),
            r.explored@ == Seq::<TileOffset>::empty(),
    {
        MyPlayer {
            dir: Direction::West,
            on_hill: false,
            initial: true,
            world: World::new(),
            pos: TileOffset(0, 0),
            explored: Vec::new(),
        }
    }
}

impl MyPlayer {
    /// The state, with the action of the turn that led to it, as a value of the model.
    pub open spec fn outcome(&self, action: Action) -> Outcome {
        Outcome {
            dir: self.dir,
            on_hill: self.on_hill,
            initial: self.initial,
            pos: self.pos,
            explored: self.explored@,
            action,
        }
    }

    /// The route that the search for the hill owes on the map `w` with the known positions
    /// `known`: none where no hill is known.
    pub open spec fn goal_route(
        pos: TileOffset,
        w: Map<TileOffset, TileInfo>,
        known: Seq<TileOffset>,
    ) -> Option<Seq<TileOffset>> {
        if hills_of(w, known).len() == 0 {
            None
        } else {
            bfs_path(pos, w, hills_of(w, known), true)
        }
    }

    /// The known hill positions.
    pub fn get_hills(&self) -> (r: Vec<TileOffset>)
        ensures
            r@ == hills_of(self.world@, self.world.known()),
            forall|p: TileOffset|
                r@.contains(p) <==> self.world@.contains_key(p) && self.world@[p].tile is Hill,
    {
        self.world.get_hills()
    }

    /// A shortest route from the agent's position to one of `goals`.
    pub fn search_goal(&self, goals: Vec<TileOffset>) -> (r: Option<Vec<TileOffset>>)
        ensures
            route_of(r) == bfs_path(self.pos, self.world@, goals@, true),
            is_shortest(self.world@, self.pos, goals@, true, route_of(r)),
            goals@.contains(self.pos) ==> route_of(r) == Some(seq![self.pos]),
    {
        search(&self.pos, &self.world, &goals, true)
    }

    /// A shortest route from the agent's position to a position that is not among `goals`.
    pub fn search_nongoals(&self, goals: &Vec<TileOffset>) -> (r: Option<Vec<TileOffset>>)
        ensures
            route_of(r) == bfs_path(self.pos, self.world@, goals@, false),
            is_shortest(self.world@, self.pos, goals@, false, route_of(r)),
            !goals@.contains(self.pos) ==> route_of(r) == Some(seq![self.pos]),
    {
        search(&self.pos, &self.world, goals, false)
    }

    /// Finishes a turn from the answers of the two searches: chooses the direction, and
    /// moves or stays.
    pub fn resolve(
        &mut self,
        nearby: &Vec<TileObservation>,
        goal: Option<Vec<TileOffset>>,
        frontier: Option<Vec<TileOffset>>,
    ) -> (action: Action)
        ensures
            final(self).world == old(self).world,
            final(self).outcome(action) == decide(
                old(self).dir,
                old(self).on_hill,
                old(self).initial,
                old(self).pos,
                old(self).explored@,
                old(self).world@,
                nearby@,
                route_of(goal),
                route_of(frontier),
            ),
    {
        let facing_before = self.dir;
        let mut heading: Option<Direction> = None;
        if let Some(path) = &goal {
            heading = first_heading(path, self.pos);
        }
        if heading.is_none() {
            if let Some(path) = &frontier {
                heading = first_heading(path, self.pos);
            }
        }
        let mut found_path = false;
        match heading {
            Some(d) => {
                found_path = true;
                self.dir = d;
            },
            None => {
                let (d, found) = look_around(nearby, self.pos, &self.explored, self.dir);
                self.dir = d;
                found_path = found;
            },
        }
        if !found_path {
            return Action::StayStill;
        }
        let ahead = self.pos.add(self.dir.extend(1));
        if let Some(tile_info) = self.world.get(ahead) {
            if let Tile::Hill = tile_info.tile {
                self.on_hill = true;
            }
        }
        if self.dir != facing_before && !self.initial {
            self.pos = ahead;
            self.explored.push(ahead);
            Action::DropBombAndMove(self.dir)
        } else {
            self.initial = false;
            self.pos = ahead;
            self.explored.push(ahead);
            Action::Move(self.dir)
        }
    }

    /// One turn. On the hill the agent stays and nothing changes. Else it takes in the
    /// sightings, searches for the hill and for unvisited ground, and finishes the turn
    /// from what the searches answer.
    pub fn act(&mut self, nearby: Vec<TileObservation>) -> (action: Action)
        ensures
            old(self).on_hill ==> action == Action::StayStill && *final(self) == *old(self),
            !old(self).on_hill ==> {
                let w = merged(old(self).world@, old(self).pos, nearby@);
                let known = sighted(old(self).world.known(), old(self).pos, nearby@);
                &&& final(self).world@ == w
                &&& final(self).world.known() == known
                &&& final(self).outcome(action) == decide(
                    old(self).dir,
                    false,
                    old(self).initial,
                    old(self).pos,
                    old(self).explored@,
                    w,
                    nearby@,
                    Self::goal_route(old(self).pos, w, known),
                    bfs_path(old(self).pos, w, old(self).explored@, false),
                )
                &&& forall|p: TileOffset|
                    hills_of(w, known).contains(p) <==> w.contains_key(p) && w[p].tile is Hill
                &&& hills_of(w, known).len() > 0 ==> is_shortest(
                    w,
                    old(self).pos,
                    hills_of(w, known),
                    true,
                    bfs_path(old(self).pos, w, hills_of(w, known), true),
                )
                &&& is_shortest(
                    w,
                    old(self).pos,
                    old(self).explored@,
                    false,
                    bfs_path(old(self).pos, w, old(self).explored@, false),
                )
            },
    {
        if self.on_hill {
            return Action::StayStill;
        }
        self.world.observe(self.pos, &nearby);
        let hills = self.get_hills();
        let goal = if hills.len() == 0 {
            None
        } else {
            self.search_goal(hills)
        };
        let frontier = self.search_nongoals(&self.explored);
        self.resolve(&nearby, goal, frontier)
    }

    /// The name the agent plays under.
    pub fn name(&self) -> (r: String)
        ensures
            r@ == "Hidari-Kun"@,
    {
        "Hidari-Kun".to_owned()
    }

    /// The name of the agent's team.
    pub fn team_name() -> (r: String)
        ensures
            r@ == "Heiwa"@,
    {
        "Heiwa".to_owned()
    }
}

/// The look around and the search judge a tile alike: where the map holds for the tile
/// ahead the very sighting that the look around reads, the look around confirms the
/// direction exactly if a route may take that step.
pub proof fn lemma_scan_agrees_with_search(
    w: Map<TileOffset, TileInfo>,
    nearby: Seq<TileObservation>,
    pos: TileOffset,
    dir: Direction,
)
    requires
        seen_from(nearby, unit(dir), 0) is Some,
        w.contains_key(plus(pos, unit(dir))),
        w[plus(pos, unit(dir))] == record_of(seen_from(nearby, unit(dir), 0).unwrap(), pos),
    ensures
        confirmed(nearby, pos, dir) == step_ok(w, pos, plus(pos, unit(dir))),
{
}

/// A direction is confirmed only where the sighting of the tile ahead shows no wall, no
/// solid object and no enemy.
pub proof fn lemma_confirmed_tile_is_open(nearby: Seq<TileObservation>, pos: TileOffset, dir: Direction)
    requires
        confirmed(nearby, pos, dir),
    ensures
        seen_from(nearby, unit(dir), 0) is Some,
        ({
            let s = seen_from(nearby, unit(dir), 0).unwrap();
            !(s.tile is Wall) && s.enemy is None && object_passable(s.object)
        }),
{
}

/// A route of at least one step that starts where the agent stands gives a direction: the
/// one of its first step, which leads to a known tile that can be entered.
pub proof fn lemma_route_gives_first_step(
    w: Map<TileOffset, TileInfo>,
    path: Seq<TileOffset>,
    pos: TileOffset,
)
    requires
        is_route(w, path),
        path[0] == pos,
        path.len() >= 2,
    ensures
        heading_along(path, pos, 0) is Some,
        plus(pos, unit(heading_along(path, pos, 0).unwrap())) == path[1],
        step_ok(w, pos, path[1]),
{
    assert(step_ok(w, path[0], path[0int + 1]));
    assert(heading_of(minus(path[0], pos)) is None);
    assert(heading_along(path, pos, 0) == heading_along(path, pos, 1));
    lemma_minus_plus(pos, unit(Direction::East));
    lemma_minus_plus(pos, unit(Direction::West));
    lemma_minus_plus(pos, unit(Direction::North));
    lemma_minus_plus(pos, unit(Direction::South));
}

/// With a hill known on an enterable tile next to the agent, and the agent not on a known
/// hill itself, the turn ends with a move onto a hill, and the hill counts as reached.
pub proof fn lemma_adjacent_hill_is_entered(
    dir: Direction,
    initial: bool,
    pos: TileOffset,
    explored: Seq<TileOffset>,
    w: Map<TileOffset, TileInfo>,
    nearby: Seq<TileObservation>,
    hills: Seq<TileOffset>,
    goal: Option<Seq<TileOffset>>,
    frontier: Option<Seq<TileOffset>>,
    hill: TileOffset,
)
    requires
        forall|p: TileOffset| hills.contains(p) <==> w.contains_key(p) && w[p].tile is Hill,
        is_shortest(w, pos, hills, true, goal),
        !hills.contains(pos),
        hills.contains(hill),
        step_ok(w, pos, hill),
    ensures
        ({
            let out = decide(dir, false, initial, pos, explored, w, nearby, goal, frontier);
            &&& out.on_hill
            &&& out.action != Action::StayStill
            &&& hills.contains(out.pos)
            &&& step_ok(w, pos, out.pos)
        }),
{
    let direct = seq![pos, hill];
    assert(reaches(w, pos, hills, true, direct));
    let path = goal.unwrap();
    assert(path.len() <= direct.len());
    assert(reaches(w, pos, hills, true, path));
    assert(path.len() == 2);
    lemma_route_gives_first_step(w, path, pos);
}

/// A search result that holds only the agent's own position gives no direction.
pub proof fn lemma_no_heading_on_the_spot(pos: TileOffset)
    ensures
        heading_from(Some(seq![pos]), pos) is None,
        heading_from(None, pos) is None,
{
    let path = seq![pos];
    assert(heading_of(minus(path[0], pos)) is None);
    assert(heading_along(path, pos, 1) is None);
}

/// A look around that finds nothing ends facing where it began.
pub proof fn lemma_fruitless_scan_keeps_dir(
    nearby: Seq<TileObservation>,
    pos: TileOffset,
    explored: Seq<TileOffset>,
    dir: Direction,
)
    ensures
        !scan(nearby, pos, explored, dir, false, 4).1 ==> scan(nearby, pos, explored, dir, false, 4).0
            == dir,
{
    reveal_with_fuel(scan, 5);
}

/// Without a direction from the searches, with no direction confirmed by the sightings,
/// and with all four neighbours moved to before, the agent stays still and its state is
/// what it was.
pub proof fn lemma_walled_in_stays(
    dir: Direction,
    on_hill: bool,
    initial: bool,
    pos: TileOffset,
    explored: Seq<TileOffset>,
    w: Map<TileOffset, TileInfo>,
    nearby: Seq<TileObservation>,
    goal: Option<Seq<TileOffset>>,
    frontier: Option<Seq<TileOffset>>,
)
    requires
        searched_heading(goal, frontier, pos) is None,
        forall|d: Direction| !confirmed(nearby, pos, d),
        forall|d: Direction| explored.contains(plus(pos, unit(d))),
    ensures
        decide(dir, on_hill, initial, pos, explored, w, nearby, goal, frontier) == (Outcome {
            dir,
            on_hill,
            initial,
            pos,
            explored,
            action: Action::StayStill,
        }),
{
    reveal_with_fuel(scan, 5);
    assert(explored.contains(plus(pos, unit(left_of(dir)))));
    assert(explored.contains(plus(pos, unit(left_of(left_of(dir))))));
    assert(explored.contains(plus(pos, unit(left_of(left_of(left_of(dir)))))));
    assert(explored.contains(plus(pos, unit(left_of(left_of(left_of(left_of(dir))))))));
}

/// Whatever the turn, the action is to stay exactly if no direction was found; a move
/// goes one step in the new direction and adds that position to the visited list; and a
/// bomb is dropped exactly if the agent moves, has turned, and has moved before.
pub proof fn lemma_decide_shape(
    dir: Direction,
    on_hill: bool,
    initial: bool,
    pos: TileOffset,
    explored: Seq<TileOffset>,
    w: Map<TileOffset, TileInfo>,
    nearby: Seq<TileObservation>,
    goal: Option<Seq<TileOffset>>,
    frontier: Option<Seq<TileOffset>>,
)
    ensures
        ({
            let out = decide(dir, on_hill, initial, pos, explored, w, nearby, goal, frontier);
            let found = chosen(dir, pos, explored, nearby, goal, frontier).1;
            &&& out.action == Action::StayStill <==> !found
            &&& !found ==> out.pos == pos && out.explored == explored && out.dir == dir
                && out.on_hill == on_hill && out.initial == initial
            &&& found ==> out.pos == plus(pos, unit(out.dir)) && out.explored == explored.push(
                out.pos,
            ) && !out.initial
            &&& out.action == Action::DropBombAndMove(out.dir) <==> found && out.dir != dir
                && !initial
        }),
{
    lemma_fruitless_scan_keeps_dir(nearby, pos, explored, dir);
}

} // verus!
