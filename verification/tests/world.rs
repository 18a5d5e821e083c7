use hidari::geometry::TileOffset;
use hidari::tile::{can_go_to, Enemy, Object, Tile, TileInfo, TileObservation};
use hidari::world::World;

fn see(tile: Tile, x: i32, y: i32) -> TileObservation {
    TileObservation { tile, object: None, enemy: None, offset: TileOffset(x, y) }
}

fn info(tile: Tile, object: Option<Object>, enemy: Option<Enemy>) -> TileInfo {
    TileInfo { tile, object, enemy, xy: TileOffset(0, 0) }
}

#[test]
fn solid_objects_block() {
    assert!(Object { solid: true }.is_solid());
    assert!(!Object { solid: false }.is_solid());
    assert!(can_go_to(None));
    assert!(can_go_to(Some(Object { solid: false })));
    assert!(!can_go_to(Some(Object { solid: true })));
}

#[test]
fn enterable_unless_wall_solid_object_or_enemy() {
    assert!(info(Tile::Floor, None, None).is_enterable());
    assert!(info(Tile::Hill, None, None).is_enterable());
    assert!(info(Tile::Floor, Some(Object { solid: false }), None).is_enterable());
    assert!(!info(Tile::Wall, None, None).is_enterable());
    assert!(!info(Tile::Wall, Some(Object { solid: false }), None).is_enterable());
    assert!(!info(Tile::Floor, Some(Object { solid: true }), None).is_enterable());
    assert!(!info(Tile::Floor, None, Some(Enemy { id: 3 })).is_enterable());
    assert!(!info(Tile::Hill, Some(Object { solid: false }), Some(Enemy { id: 3 })).is_enterable());
}

#[test]
fn record_places_sighting_from_origin() {
    let s = TileObservation {
        tile: Tile::Hill,
        object: Some(Object { solid: true }),
        enemy: Some(Enemy { id: 9 }),
        offset: TileOffset(2, -1),
    };
    let r = s.record(TileOffset(10, 10));
    assert_eq!(
        r,
        TileInfo {
            tile: Tile::Hill,
            object: Some(Object { solid: true }),
            enemy: Some(Enemy { id: 9 }),
            xy: TileOffset(12, 9),
        }
    );
}

#[test]
fn new_world_is_empty() {
    let w = World::new();
    assert_eq!(w.get(TileOffset(0, 0)), None);
    assert_eq!(w.get_hills(), Vec::<TileOffset>::new());
}

#[test]
fn observe_records_every_reported_position() {
    let mut w = World::new();
    w.observe(TileOffset(5, 5), &vec![see(Tile::Floor, 0, 0), see(Tile::Wall, 1, 0), see(Tile::Hill, 0, -1)]);
    assert_eq!(w.get(TileOffset(5, 5)).map(|i| i.tile), Some(Tile::Floor));
    assert_eq!(w.get(TileOffset(6, 5)).map(|i| i.tile), Some(Tile::Wall));
    assert_eq!(w.get(TileOffset(5, 4)).map(|i| i.tile), Some(Tile::Hill));
    assert_eq!(w.get(TileOffset(5, 4)).map(|i| i.xy), Some(TileOffset(5, 4)));
    assert_eq!(w.get(TileOffset(0, 0)), None);
    assert_eq!(w.get(TileOffset(1, 0)), None);
}

#[test]
fn observe_empty_list_changes_nothing() {
    let mut w = World::new();
    w.observe(TileOffset(0, 0), &vec![see(Tile::Floor, 1, 1)]);
    w.observe(TileOffset(3, 3), &vec![]);
    assert_eq!(w.get(TileOffset(1, 1)).map(|i| i.tile), Some(Tile::Floor));
    assert_eq!(w.get(TileOffset(3, 3)), None);
}

#[test]
fn later_sighting_replaces_earlier_one() {
    let mut w = World::new();
    w.observe(TileOffset(0, 0), &vec![see(Tile::Floor, 1, 0), see(Tile::Floor, 2, 0)]);
    let mut with_enemy = see(Tile::Floor, 0, 0);
    with_enemy.enemy = Some(Enemy { id: 1 });
    w.observe(TileOffset(1, 0), &vec![with_enemy]);
    assert_eq!(w.get(TileOffset(1, 0)).and_then(|i| i.enemy), Some(Enemy { id: 1 }));
    assert_eq!(w.get(TileOffset(2, 0)).and_then(|i| i.enemy), None);
    w.observe(TileOffset(2, 0), &vec![see(Tile::Wall, -1, 0)]);
    assert_eq!(
        w.get(TileOffset(1, 0)),
        Some(TileInfo { tile: Tile::Wall, object: None, enemy: None, xy: TileOffset(1, 0) })
    );
}

#[test]
fn last_of_two_sightings_in_one_turn_wins() {
    let mut w = World::new();
    w.observe(TileOffset(0, 0), &vec![see(Tile::Wall, 1, 0), see(Tile::Hill, 1, 0)]);
    assert_eq!(w.get(TileOffset(1, 0)).map(|i| i.tile), Some(Tile::Hill));
    w.observe(TileOffset(0, 0), &vec![see(Tile::Hill, 1, 0), see(Tile::Wall, 1, 0)]);
    assert_eq!(w.get(TileOffset(1, 0)).map(|i| i.tile), Some(Tile::Wall));
}

#[test]
fn stale_records_are_kept() {
    let mut w = World::new();
    let mut with_enemy = see(Tile::Floor, 4, 4);
    with_enemy.enemy = Some(Enemy { id: 2 });
    w.observe(TileOffset(0, 0), &vec![with_enemy]);
    w.observe(TileOffset(0, 0), &vec![see(Tile::Floor, 1, 0)]);
    w.observe(TileOffset(1, 0), &vec![see(Tile::Floor, 1, 0)]);
    assert_eq!(w.get(TileOffset(4, 4)).and_then(|i| i.enemy), Some(Enemy { id: 2 }));
}

#[test]
fn observe_wraps_positions_around() {
    let mut w = World::new();
    w.observe(TileOffset(i32::MAX, i32::MIN), &vec![see(Tile::Hill, 1, -1)]);
    assert_eq!(w.get(TileOffset(i32::MIN, i32::MAX)).map(|i| i.tile), Some(Tile::Hill));
    assert_eq!(w.get_hills(), vec![TileOffset(i32::MIN, i32::MAX)]);
}

#[test]
fn far_apart_positions_do_not_collide() {
    let mut w = World::new();
    w.observe(TileOffset(0, 0), &vec![see(Tile::Wall, 0, 1), see(Tile::Hill, 1, 0), see(Tile::Floor, -1, -1)]);
    assert_eq!(w.get(TileOffset(0, 1)).map(|i| i.tile), Some(Tile::Wall));
    assert_eq!(w.get(TileOffset(1, 0)).map(|i| i.tile), Some(Tile::Hill));
    assert_eq!(w.get(TileOffset(-1, -1)).map(|i| i.tile), Some(Tile::Floor));
    assert_eq!(w.get(TileOffset(-1, 0)), None);
    assert_eq!(w.get(TileOffset(0, -1)), None);
}

#[test]
fn hills_are_listed_in_order_of_first_sighting() {
    let mut w = World::new();
    w.observe(
        TileOffset(0, 0),
        &vec![see(Tile::Hill, 3, 0), see(Tile::Floor, 1, 0), see(Tile::Hill, -2, 5), see(Tile::Wall, 0, 1)],
    );
    assert_eq!(w.get_hills(), vec![TileOffset(3, 0), TileOffset(-2, 5)]);
    w.observe(TileOffset(0, 0), &vec![see(Tile::Hill, 1, 0), see(Tile::Floor, 3, 0), see(Tile::Hill, 9, 9)]);
    assert_eq!(w.get_hills(), vec![TileOffset(1, 0), TileOffset(-2, 5), TileOffset(9, 9)]);
}
