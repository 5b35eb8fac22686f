use game_engine::base::{
    collect_income, invader_entry_column, pair_combatants, select_room, soldier_order, Grid, RoomType, SoldierOrder,
    COMMAND_X, COMMAND_Y, GRID_HEIGHT, GRID_WIDTH,
};

#[test]
fn test_new_grid_layout() {
    let g = Grid::new();
    for y in 0..GRID_HEIGHT {
        for x in 0..GRID_WIDTH {
            let expected = if y == 0 {
                RoomType::Empty
            } else if x == COMMAND_X && y == COMMAND_Y {
                RoomType::CommandCenter
            } else {
                RoomType::Dirt
            };
            assert_eq!(g.room_at(x, y), expected);
        }
    }
    assert_eq!(g.room_at(10, 2), RoomType::CommandCenter);
}

#[test]
fn test_place_room_rules() {
    let mut g = Grid::new();
    // digging and building below the surface
    g.place_room(3, 4, RoomType::Barracks);
    assert_eq!(g.room_at(3, 4), RoomType::Barracks);
    g.place_room(5, 5, RoomType::Empty);
    assert_eq!(g.room_at(5, 5), RoomType::Empty);
    g.place_room(5, 5, RoomType::Factory);
    assert_eq!(g.room_at(5, 5), RoomType::Factory);
    // a standing room is not replaced
    g.place_room(3, 4, RoomType::Factory);
    assert_eq!(g.room_at(3, 4), RoomType::Barracks);
    g.place_room(COMMAND_X, COMMAND_Y, RoomType::Empty);
    assert_eq!(g.room_at(COMMAND_X, COMMAND_Y), RoomType::CommandCenter);
    // the surface row and off-grid clicks change nothing
    g.place_room(7, 0, RoomType::Barracks);
    assert_eq!(g.room_at(7, 0), RoomType::Empty);
    let before = g.room_sites(RoomType::Barracks);
    g.place_room(GRID_WIDTH, 3, RoomType::Barracks);
    g.place_room(2, GRID_HEIGHT, RoomType::Barracks);
    assert_eq!(g.room_sites(RoomType::Barracks), before);
}

#[test]
fn test_room_sites_row_major() {
    let mut g = Grid::new();
    g.place_room(9, 6, RoomType::Factory);
    g.place_room(1, 6, RoomType::Factory);
    g.place_room(15, 3, RoomType::Factory);
    g.place_room(4, 3, RoomType::Barracks);
    assert_eq!(g.room_sites(RoomType::Factory), vec![(15, 3), (1, 6), (9, 6)]);
    assert_eq!(g.room_sites(RoomType::Barracks), vec![(4, 3)]);
    assert_eq!(g.room_sites(RoomType::CommandCenter), vec![(COMMAND_X, COMMAND_Y)]);
    assert_eq!(g.room_sites(RoomType::Empty).len(), GRID_WIDTH);
}

#[test]
fn test_collect_income() {
    assert_eq!(collect_income(0, 3), 30);
    assert_eq!(collect_income(25, 0), 25);
    assert_eq!(collect_income(40, 2), 60);
}

#[test]
fn test_first_open_tile() {
    let mut g = Grid::new();
    g.place_room(6, 8, RoomType::Empty);
    assert_eq!(g.first_open_tile(&vec![(1, 1), (6, 8), (3, 0)]), Some((6, 8)));
    assert_eq!(g.first_open_tile(&vec![(1, 1), (2, 2)]), None);
    assert_eq!(g.first_open_tile(&vec![]), None);
    assert_eq!(g.first_open_tile(&vec![(4, 0)]), Some((4, 0)));
}

#[test]
fn test_pick_open_tile_lands_on_open_ground() {
    let g = Grid::new();
    let mut found = 0;
    for _ in 0..200 {
        if let Some((x, y)) = g.pick_open_tile() {
            assert!(x < GRID_WIDTH && y < GRID_HEIGHT);
            assert_ne!(g.room_at(x, y), RoomType::Dirt);
            found += 1;
        }
    }
    assert!(found > 0);
}

#[test]
fn test_invader_entry_column() {
    for _ in 0..200 {
        assert!(invader_entry_column() < GRID_WIDTH);
    }
}

#[test]
fn test_soldier_order() {
    assert_eq!(soldier_order(true, true), SoldierOrder::Chase);
    assert_eq!(soldier_order(true, false), SoldierOrder::Chase);
    assert_eq!(soldier_order(false, false), SoldierOrder::Patrol);
    assert_eq!(soldier_order(false, true), SoldierOrder::Hold);
}

#[test]
fn test_pair_combatants() {
    // invader 0 reaches soldiers 0 and 1, invader 1 only soldier 0, invader 2 soldiers 1 and 2
    let near = vec![
        vec![true, true, false],
        vec![true, false, false],
        vec![false, true, true],
    ];
    assert_eq!(pair_combatants(&near, 3), vec![(0, 0), (2, 1)]);
    let none: Vec<Vec<bool>> = vec![vec![false, false], vec![false, false]];
    assert_eq!(pair_combatants(&none, 2), vec![]);
    let no_soldiers: Vec<Vec<bool>> = vec![vec![], vec![]];
    assert_eq!(pair_combatants(&no_soldiers, 0), vec![]);
}

#[test]
fn test_select_room() {
    assert_eq!(select_room(RoomType::Empty, false, true, false), RoomType::Barracks);
    assert_eq!(select_room(RoomType::Barracks, true, false, false), RoomType::Empty);
    assert_eq!(select_room(RoomType::Empty, false, false, true), RoomType::Factory);
    assert_eq!(select_room(RoomType::Factory, false, false, false), RoomType::Factory);
    assert_eq!(select_room(RoomType::Empty, true, true, false), RoomType::Barracks);
    assert_eq!(select_room(RoomType::Empty, true, true, true), RoomType::Factory);
}

#[test]
fn test_run_of_placements_keeps_base() {
    let mut g = Grid::new();
    let clicks = [(3usize, 0usize, 2u8), (10, 2, 1), (4, 4, 2), (4, 4, 3), (4, 4, 1), (7, 9, 3), (7, 9, 1), (0, 1, 1)];
    let mut selected = RoomType::Empty;
    for (x, y, key) in clicks {
        selected = select_room(selected, key == 1, key == 2, key == 3);
        g.place_room(x, y, selected);
    }
    for x in 0..GRID_WIDTH {
        assert_eq!(g.room_at(x, 0), RoomType::Empty);
    }
    assert_eq!(g.room_sites(RoomType::CommandCenter), vec![(COMMAND_X, COMMAND_Y)]);
    assert_eq!(g.room_at(4, 4), RoomType::Barracks);
    assert_eq!(g.room_at(7, 9), RoomType::Factory);
    assert_eq!(g.room_at(0, 1), RoomType::Empty);
}
