//! A turn-based grid agent: it builds a map of the arena from partial sightings and
//! steers toward the hill, toward unvisited ground, or along the walls.

pub mod geometry;
pub mod tile;
pub mod world;
pub mod search;
pub mod player;
