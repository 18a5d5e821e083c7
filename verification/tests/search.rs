use hidari::geometry::TileOffset;
use hidari::search::{holds, is_target, search, successors};
use hidari::tile::{Enemy, Object, Tile, TileObservation};
use hidari::world::World;

fn see(tile: Tile, x: i32, y: i32) -> TileObservation {
    TileObservation { tile, object: None, enemy: None, offset: TileOffset(x, y) }
}

fn floor_block(width: i32, height: i32, walls: &[(i32, i32)]) -> World {
    let mut seen = Vec::new();
    for x in 0..width {
        for y in 0..height {
            let tile = if walls.contains(&(x, y)) { Tile::Wall } else { Tile::Floor };
            seen.push(see(tile, x, y));
        }
    }
    let mut w = World::new();
    w.observe(TileOffset(0, 0), &seen);
    w
}

#[test]
fn holds_finds_listed_positions() {
    let list = vec![TileOffset(1, 2), TileOffset(3, 4)];
    assert!(holds(&list, &TileOffset(1, 2)));
    assert!(holds(&list, &TileOffset(3, 4)));
    assert!(!holds(&list, &TileOffset(2, 1)));
    assert!(!holds(&Vec::new(), &TileOffset(0, 0)));
}

#[test]
fn target_is_member_or_non_member() {
    let marks = vec![TileOffset(1, 2)];
    assert!(is_target(&TileOffset(1, 2), &marks, true));
    assert!(!is_target(&TileOffset(0, 0), &marks, true));
    assert!(!is_target(&TileOffset(1, 2), &marks, false));
    assert!(is_target(&TileOffset(0, 0), &marks, false));
}

#[test]
fn successors_come_east_west_north_south() {
    let w = floor_block(3, 3, &[]);
    assert_eq!(
        successors(&TileOffset(1, 1), &w),
        vec![TileOffset(2, 1), TileOffset(0, 1), TileOffset(1, 2), TileOffset(1, 0)]
    );
}

#[test]
fn successors_leave_out_unknown_and_blocked_tiles() {
    let mut w = floor_block(3, 3, &[(2, 1)]);
    let mut crate_north = see(Tile::Floor, 1, 2);
    crate_north.object = Some(Object { solid: true });
    let mut enemy_south = see(Tile::Floor, 1, 0);
    enemy_south.enemy = Some(Enemy { id: 1 });
    w.observe(TileOffset(0, 0), &vec![crate_north, enemy_south]);
    assert_eq!(successors(&TileOffset(1, 1), &w), vec![TileOffset(0, 1)]);
    assert_eq!(successors(&TileOffset(0, 0), &w), vec![TileOffset(0, 1)]);
    assert_eq!(successors(&TileOffset(50, 50), &w), Vec::<TileOffset>::new());
}

#[test]
fn successors_keep_tiles_with_soft_objects() {
    let mut w = floor_block(2, 1, &[]);
    let mut soft = see(Tile::Floor, 1, 0);
    soft.object = Some(Object { solid: false });
    w.observe(TileOffset(0, 0), &vec![soft]);
    assert_eq!(successors(&TileOffset(0, 0), &w), vec![TileOffset(1, 0)]);
}

#[test]
fn search_returns_start_alone_when_start_is_goal() {
    let w = floor_block(3, 3, &[]);
    let start = TileOffset(1, 1);
    assert_eq!(search(&start, &w, &vec![TileOffset(1, 1), TileOffset(2, 2)], true), Some(vec![start]));
    assert_eq!(search(&start, &w, &vec![], false), Some(vec![start]));
    let nowhere = World::new();
    assert_eq!(search(&start, &nowhere, &vec![], false), Some(vec![start]));
}

#[test]
fn search_finds_the_only_way_round_a_wall() {
    let w = floor_block(3, 3, &[(1, 0), (1, 1)]);
    let found = search(&TileOffset(0, 0), &w, &vec![TileOffset(2, 0)], true);
    assert_eq!(
        found,
        Some(vec![
            TileOffset(0, 0),
            TileOffset(0, 1),
            TileOffset(0, 2),
            TileOffset(1, 2),
            TileOffset(2, 2),
            TileOffset(2, 1),
            TileOffset(2, 0),
        ])
    );
}

#[test]
fn search_takes_the_shorter_of_two_ways() {
    let w = floor_block(4, 3, &[(1, 1), (2, 1)]);
    let found = search(&TileOffset(0, 0), &w, &vec![TileOffset(3, 0)], true).unwrap();
    assert_eq!(found, vec![TileOffset(0, 0), TileOffset(1, 0), TileOffset(2, 0), TileOffset(3, 0)]);
    let found = search(&TileOffset(0, 2), &w, &vec![TileOffset(3, 0)], true).unwrap();
    assert_eq!(found.len(), 6);
    assert_eq!(found[0], TileOffset(0, 2));
    assert_eq!(found[5], TileOffset(3, 0));
}

#[test]
fn search_goes_to_the_nearest_goal() {
    let w = floor_block(5, 1, &[]);
    let marks = vec![TileOffset(0, 0), TileOffset(3, 0)];
    assert_eq!(
        search(&TileOffset(2, 0), &w, &marks, true),
        Some(vec![TileOffset(2, 0), TileOffset(3, 0)])
    );
}

#[test]
fn search_breaks_ties_by_trying_east_first() {
    let w = floor_block(2, 2, &[]);
    assert_eq!(
        search(&TileOffset(0, 0), &w, &vec![TileOffset(1, 1)], true),
        Some(vec![TileOffset(0, 0), TileOffset(1, 0), TileOffset(1, 1)])
    );
    let marks = vec![TileOffset(1, 1), TileOffset(0, 1), TileOffset(2, 1)];
    let w = floor_block(3, 3, &[]);
    assert_eq!(
        search(&TileOffset(1, 1), &w, &marks, false),
        Some(vec![TileOffset(1, 1), TileOffset(1, 2)])
    );
}

#[test]
fn search_fails_when_goal_is_walled_off() {
    let w = floor_block(3, 1, &[(1, 0)]);
    assert_eq!(search(&TileOffset(0, 0), &w, &vec![TileOffset(2, 0)], true), None);
}

#[test]
fn search_fails_when_goal_is_unknown_or_blocked() {
    let w = floor_block(3, 1, &[(2, 0)]);
    assert_eq!(search(&TileOffset(0, 0), &w, &vec![TileOffset(2, 0)], true), None);
    assert_eq!(search(&TileOffset(0, 0), &w, &vec![TileOffset(7, 7)], true), None);
    assert_eq!(search(&TileOffset(0, 0), &w, &vec![], true), None);
}

#[test]
fn search_does_not_pass_an_enemy() {
    let mut w = floor_block(3, 1, &[]);
    let mut enemy = see(Tile::Floor, 1, 0);
    enemy.enemy = Some(Enemy { id: 4 });
    w.observe(TileOffset(0, 0), &vec![enemy]);
    assert_eq!(search(&TileOffset(0, 0), &w, &vec![TileOffset(2, 0)], true), None);
    assert_eq!(search(&TileOffset(0, 0), &w, &vec![TileOffset(1, 0)], true), None);
}

#[test]
fn search_for_unvisited_ground_fails_when_all_reachable_is_visited() {
    let w = floor_block(3, 1, &[]);
    let visited = vec![TileOffset(0, 0), TileOffset(1, 0), TileOffset(2, 0)];
    assert_eq!(search(&TileOffset(1, 0), &w, &visited, false), None);
}

#[test]
fn search_does_not_leave_the_known_map() {
    let w = floor_block(2, 1, &[]);
    let visited = vec![TileOffset(0, 0), TileOffset(1, 0)];
    assert_eq!(search(&TileOffset(0, 0), &w, &visited, false), None);
}

#[test]
fn repeated_searches_agree() {
    let w = floor_block(6, 6, &[(1, 1), (2, 3), (4, 4), (3, 1)]);
    let marks = vec![TileOffset(5, 5), TileOffset(0, 5)];
    let first = search(&TileOffset(0, 0), &w, &marks, true);
    for _ in 0..5 {
        assert_eq!(search(&TileOffset(0, 0), &w, &marks, true), first);
    }
    let again = floor_block(6, 6, &[(1, 1), (2, 3), (4, 4), (3, 1)]);
    assert_eq!(search(&TileOffset(0, 0), &again, &marks, true), first);
    assert_eq!(first.map(|p| p.len()), Some(6));
}

#[test]
fn every_move_of_a_found_route_is_one_step_onto_open_ground() {
    let w = floor_block(6, 6, &[(1, 0), (1, 1), (1, 2), (3, 5), (3, 4), (3, 3), (3, 2)]);
    let path = search(&TileOffset(0, 0), &w, &vec![TileOffset(5, 5)], true).unwrap();
    assert_eq!(path.len(), 15);
    for i in 1..path.len() {
        let step = path[i].sub(path[i - 1]);
        assert!(step.try_to_direction().is_some());
        assert!(w.get(path[i]).unwrap().is_enterable());
    }
}
