//! What a tile holds, and whether the agent may step onto it.

use vstd::prelude::*;
use crate::geometry::{TileOffset, plus};

verus! {

/// The terrain of a tile.
#[derive(Clone, Copy, Debug, PartialEq, Eq, Hash, Structural)]
pub enum Tile {
    Floor,
    Wall,
    Hill,
}

/// Something lying on a tile. A solid object blocks the way; another can be walked over.
#[derive(Clone, Copy, Debug, PartialEq, Eq, Hash, Structural)]
pub struct Object {
    pub solid: bool,
}

/// Another player standing on a tile. Only its presence matters here.
#[derive(Clone, Copy, Debug, PartialEq, Eq, Hash, Structural)]
pub struct Enemy {
    pub id: u32,
}

/// One sighting of a tile, placed relative to the agent.
#[derive(Clone, Copy, Debug, PartialEq, Eq, Hash, Structural)]
pub struct TileObservation {
    pub tile: Tile,
    pub object: Option<Object>,
    pub enemy: Option<Enemy>,
    pub offset: TileOffset,
}

/// What is remembered of a tile, with the tile's absolute position.
#[derive(Clone, Copy, Debug, PartialEq, Eq, Hash, Structural)]
pub struct TileInfo {
    pub tile: Tile,
    pub object: Option<Object>,
    pub enemy: Option<Enemy>,
    pub xy: TileOffset,
}

/// Whether the object blocks the way.
pub open spec fn solid(object: Object) -> bool {
    object.solid
}

/// An absent object, or one that is not solid, leaves the tile open.
pub open spec fn object_passable(maybe_object: Option<Object>) -> bool {
    match maybe_object {
        Some(object) => !solid(object),
        None => true,
    }
}

/// A tile can be entered unless it is a wall, holds a solid object, or holds an enemy.
pub open spec fn enterable(info: TileInfo) -> bool {
    !(info.tile is Wall) && object_passable(info.object) && info.enemy is None
}

/// The record that a sighting made from `origin` leaves in the map.
pub open spec fn record_of(obs: TileObservation, origin: TileOffset) -> TileInfo {
    TileInfo { tile: obs.tile, object: obs.object, enemy: obs.enemy, xy: plus(obs.offset, origin) }
}

impl Object {
    pub fn is_solid(&self) -> (r: bool)
        ensures
            r == solid(*self),
    {
        self.solid
    }
}

pub fn can_go_to(maybe_object: Option<Object>) -> (r: bool)
    ensures
        r == object_passable(maybe_object),
{
    if let Some(object) = maybe_object {
        !object.is_solid()
    } else {
        true
    }
}

impl TileInfo {
    /// Whether the agent may step onto this tile. Path search and the look at the
    /// adjacent tiles both decide by this function.
    pub fn is_enterable(&self) -> (r: bool)
        ensures
            r == enterable(*self),
    {
        let mut can_go = can_go_to(self.object);
        if let Tile::Wall = self.tile {
            can_go = false;
        }
        if self.enemy.is_some() {
            can_go = false;
        }
        can_go
    }
}

impl TileObservation {
    /// The record of this sighting when made from `origin`.
    pub fn record(&self, origin: TileOffset) -> (r: TileInfo)
        ensures
            r == record_of(*self, origin),
    {
        TileInfo {
            tile: self.tile,
            object: self.object,
            enemy: self.enemy,
            xy: self.offset.add(origin),
        }
    }
}

} // verus!
