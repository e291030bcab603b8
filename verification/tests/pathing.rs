use dungeon_map::grid::{DungeonMap, TileType};
use dungeon_map::pathing::{CARDINAL_COST, DIAGONAL_COST};

fn floor_map(width: i32, height: i32) -> DungeonMap {
    let mut map = DungeonMap::blank(width, height);
    for tile in map.tiles.iter_mut() {
        *tile = TileType::Floor;
    }
    map.update_blocked_tiles();
    map
}

fn wall(map: &mut DungeonMap, x: i32, y: i32) {
    let index = map.index_of(x, y);
    map.tiles[index] = TileType::Wall;
}

fn exits_of(map: &DungeonMap, x: i32, y: i32) -> Vec<(usize, u32)> {
    map.get_available_exits(map.index_of(x, y)).to_vec()
}

fn count_cost(exits: &[(usize, u32)], cost: u32) -> usize {
    exits.iter().filter(|exit| exit.1 == cost).count()
}

#[test]
fn the_step_costs() {
    assert_eq!(CARDINAL_COST, 100);
    assert_eq!(DIAGONAL_COST, 145);
    assert_eq!(CARDINAL_COST as f32 / 100.0, 1.0);
    assert_eq!(DIAGONAL_COST as f32 / 100.0, 1.45);
}

#[test]
fn an_interior_tile_of_an_open_grid_has_eight_exits() {
    let map = floor_map(5, 4);
    let exits = exits_of(&map, 2, 1);
    assert_eq!(
        exits,
        vec![
            (6, 100),
            (8, 100),
            (2, 100),
            (12, 100),
            (1, 145),
            (3, 145),
            (11, 145),
            (13, 145),
        ]
    );
}

#[test]
fn every_interior_tile_has_four_exits_of_each_cost() {
    let map = floor_map(7, 6);
    for y in 1..5 {
        for x in 1..6 {
            let exits = exits_of(&map, x, y);
            assert_eq!(exits.len(), 8);
            assert_eq!(count_cost(&exits, CARDINAL_COST), 4);
            assert_eq!(count_cost(&exits, DIAGONAL_COST), 4);
        }
    }
}

#[test]
fn edge_and_corner_tiles_have_fewer_exits() {
    let map = floor_map(7, 6);
    for y in 0..6 {
        for x in 0..7 {
            let across = (x > 0) as usize + (x < 6) as usize;
            let down = (y > 0) as usize + (y < 5) as usize;
            let exits = exits_of(&map, x, y);
            assert_eq!(exits.len(), (across + 1) * (down + 1) - 1);
            assert_eq!(count_cost(&exits, CARDINAL_COST), across + down);
            assert_eq!(count_cost(&exits, DIAGONAL_COST), across * down);
        }
    }
    assert_eq!(exits_of(&map, 0, 0), vec![(1, 100), (7, 100), (8, 145)]);
    assert_eq!(exits_of(&map, 6, 5), vec![(40, 100), (34, 100), (33, 145)]);
    assert_eq!(
        exits_of(&map, 3, 0),
        vec![(2, 100), (4, 100), (10, 100), (9, 145), (11, 145)]
    );
    assert_eq!(
        exits_of(&map, 0, 2),
        vec![(15, 100), (7, 100), (21, 100), (8, 145), (22, 145)]
    );
}

#[test]
fn every_exit_leads_to_a_neighbour() {
    let map = floor_map(6, 5);
    for index in 0..map.tiles.len() {
        let (x, y) = map.position_of(index);
        for (target, cost) in map.get_available_exits(index).to_vec() {
            assert!(target != index);
            let (tx, ty) = map.position_of(target);
            let dx = (tx - x).abs();
            let dy = (ty - y).abs();
            assert!(dx <= 1 && dy <= 1);
            assert_eq!(cost, if dx + dy == 2 { 145 } else { 100 });
        }
    }
}

#[test]
fn exits_on_an_open_grid_are_mutual() {
    let map = floor_map(6, 5);
    for index in 0..map.tiles.len() {
        for (target, cost) in map.get_available_exits(index).to_vec() {
            let back = map.get_available_exits(target).to_vec();
            assert!(back.contains(&(index, cost)));
        }
    }
}

#[test]
fn a_grid_one_cell_wide() {
    let map = floor_map(1, 4);
    assert_eq!(exits_of(&map, 0, 0), vec![(1, 100)]);
    assert_eq!(exits_of(&map, 0, 2), vec![(1, 100), (3, 100)]);
    let single = floor_map(1, 1);
    assert!(exits_of(&single, 0, 0).is_empty());
}

#[test]
fn an_index_past_the_last_tile_reaches_the_last_row() {
    let map = floor_map(3, 2);
    assert_eq!(map.get_available_exits(7).to_vec(), vec![(4, 100), (3, 145), (5, 145)]);
    assert!(map.get_available_exits(10).to_vec().is_empty());
}

#[test]
fn walls_are_no_exits() {
    let mut map = floor_map(5, 5);
    wall(&mut map, 1, 2);
    wall(&mut map, 3, 3);
    map.update_blocked_tiles();
    assert_eq!(
        exits_of(&map, 2, 2),
        vec![(13, 100), (7, 100), (17, 100), (6, 145), (8, 145), (16, 145)]
    );
}

#[test]
fn a_diagonal_step_may_cut_a_corner() {
    let mut map = floor_map(3, 3);
    wall(&mut map, 1, 0);
    wall(&mut map, 0, 1);
    wall(&mut map, 2, 1);
    wall(&mut map, 1, 2);
    map.update_blocked_tiles();
    assert_eq!(exits_of(&map, 1, 1), vec![(0, 145), (2, 145), (6, 145), (8, 145)]);
}

#[test]
fn a_walled_in_tile_has_no_exit() {
    let mut map = DungeonMap::blank(3, 3);
    map.tiles[4] = TileType::Floor;
    map.update_blocked_tiles();
    assert!(map.get_available_exits(4).to_vec().is_empty());
}

#[test]
fn exits_go_by_the_blocked_cache() {
    let mut map = floor_map(3, 3);
    map.tiles[5] = TileType::Wall;
    assert!(exits_of(&map, 1, 1).contains(&(5, 100)));
    map.update_blocked_tiles();
    assert!(!exits_of(&map, 1, 1).contains(&(5, 100)));
    let stale = DungeonMap::new(20, 20);
    for index in 0..stale.tiles.len() {
        assert!(stale.get_available_exits(index).to_vec().is_empty());
    }
}

#[test]
fn exits_of_a_placed_room() {
    let mut map = DungeonMap::blank(3, 3);
    map.tiles[4] = TileType::Floor;
    map.tiles[5] = TileType::Floor;
    map.tiles[7] = TileType::Floor;
    map.tiles[8] = TileType::Floor;
    map.update_blocked_tiles();
    assert_eq!(exits_of(&map, 1, 1), vec![(5, 100), (7, 100), (8, 145)]);
    assert_eq!(exits_of(&map, 2, 2), vec![(7, 100), (5, 100), (4, 145)]);
}

#[test]
fn is_exit_valid_needs_a_cell_that_is_not_blocked() {
    let mut map = floor_map(4, 3);
    wall(&mut map, 2, 1);
    map.update_blocked_tiles();
    assert!(map.is_exit_valid(0, 0));
    assert!(map.is_exit_valid(3, 2));
    assert!(!map.is_exit_valid(2, 1));
    assert!(!map.is_exit_valid(-1, 0));
    assert!(!map.is_exit_valid(0, -1));
    assert!(!map.is_exit_valid(4, 0));
    assert!(!map.is_exit_valid(0, 3));
}

#[test]
fn dimensions_are_width_and_height() {
    assert_eq!(DungeonMap::blank(7, 5).dimensions(), (7, 5));
    assert_eq!(DungeonMap::new(80, 50).dimensions(), (80, 50));
}

#[test]
fn the_queries_change_nothing() {
    let mut map = floor_map(4, 4);
    map.tiles[5] = TileType::Wall;
    let tiles = map.tiles.clone();
    let blocked = map.blocked_tiles.clone();
    for index in 0..map.tiles.len() {
        map.get_available_exits(index);
        map.is_opaque(index);
    }
    map.dimensions();
    assert_eq!(map.tiles, tiles);
    assert_eq!(map.blocked_tiles, blocked);
}
