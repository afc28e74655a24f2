use isometric::{Level, SimpleWall, Wall, WallPosition};

#[test]
fn default_z() {
    let mut level: Level = Level::new(10, 10, 10);
    for x in 0..10 {
        level.set_z(x, x, 42);
    }
    for x in 0..10 {
        for y in 0..10 {
            if x != y {
                assert_eq!(level.z(x, y), 10);
            } else {
                assert_eq!(level.z(x, y), 42);
            }
        }
    }
}

#[test]
fn border_walls() {
    let mut level: Level = Level::new(20, 20, 0);
    level.add_border_walls(());
    assert!(level.wall(4, 0, WallPosition::Bottom).is_some());
    assert!(level.wall(6, 19, WallPosition::Top).is_some());
    assert!(level.wall(0, 12, WallPosition::Left).is_some());
    assert!(level.wall(19, 7, WallPosition::Right).is_some());
    assert!(level.wall(2, 2, WallPosition::Right).is_none());
}

#[test]
fn move_self() {
    let level: Level = Level::new(10, 10, 0);
    assert_eq!(level.is_move_possible((0, 0), (0, 0)), true);
}

#[test]
fn moves() {
    let mut level: Level = Level::new(10, 10, 0);

    // Adjacent, ok
    assert_eq!(level.is_move_possible((0, 0), (1, 0)), true);
    assert_eq!(level.is_move_possible((1, 0), (1, 1)), true);
    assert_eq!(level.is_move_possible((1, 1), (0, 1)), true);
    assert_eq!(level.is_move_possible((0, 1), (0, 0)), true);

    // Diagonal, ok
    assert_eq!(level.is_move_possible((0, 0), (1, 1)), true);
    assert_eq!(level.is_move_possible((1, 0), (0, 1)), true);

    // Not adjacent
    assert_eq!(level.is_move_possible((0, 0), (2, 0)), false);

    // Dest is outside map
    assert_eq!(level.is_move_possible((9, 9), (9, 10)), false);

    // Add a wall, move no longer possible
    level.set_wall(0, 0, WallPosition::Right, Some(()));
    assert_eq!(level.is_move_possible((0, 0), (1, 0)), false);
}

#[test]
fn test_cliffs() {
    let mut level: Level = Level::new(10, 10, 0);
    level.set_z(1, 1, 10);
    level.add_cliff_walls(1, ());

    // Move ok
    assert_eq!(level.is_move_possible((0, 0), (1, 0)), true);
    // Too much of a step
    assert_eq!(level.is_move_possible((1, 0), (1, 1)), false);
    assert_eq!(level.is_move_possible((1, 1), (1, 2)), false);
    assert_eq!(level.is_move_possible((0, 1), (1, 1)), false);
    assert_eq!(level.is_move_possible((1, 1), (2, 1)), false);
    assert_eq!(level.is_move_possible((2, 1), (1, 1)), false);
}

#[test]
fn floor_data() {
    let mut level: Level<i32, i32> = Level::new(10, 10, 0);
    level.set_floor_data(4, 4, 42);
    assert_eq!(level.floor_data(4, 4), &42);
    assert_eq!(level.floor_data(0, 0), &0);
}

#[test]
fn wall_data() {
    let mut level: Level<i32, i32> = Level::new(10, 10, 0);
    level.set_wall(4, 4, WallPosition::Right, Some(42));
    assert_eq!(level.wall(4, 4, WallPosition::Right).unwrap(), 42);
    assert_eq!(level.wall(5, 4, WallPosition::Left).unwrap(), 42);
    assert!(level.wall(0, 0, WallPosition::Right).is_none());
}

#[test]
fn new_level_is_empty() {
    let level: Level<i32, i32> = Level::new(3, 2, -5);
    assert_eq!(level.width(), 3);
    assert_eq!(level.depth(), 2);
    for x in 0..3 {
        for y in 0..2 {
            assert_eq!(level.z(x, y), -5);
            assert_eq!(level.floor_data(x, y), &0);
            assert!(level.wall(x, y, WallPosition::Left).is_none());
            assert!(level.wall(x, y, WallPosition::Right).is_none());
            assert!(level.wall(x, y, WallPosition::Top).is_none());
            assert!(level.wall(x, y, WallPosition::Bottom).is_none());
        }
    }
}

#[test]
fn set_z_chains() {
    let mut level: Level = Level::new(4, 4, 0);
    level.set_z(1, 2, 7).set_z(3, 0, -3);
    assert_eq!(level.z(1, 2), 7);
    assert_eq!(level.z(3, 0), -3);
    assert_eq!(level.z(2, 1), 0);
}

#[test]
fn move_to_self_everywhere() {
    let mut level: Level = Level::new(5, 4, 0);
    level.add_border_walls(());
    level.set_wall(2, 2, WallPosition::Top, Some(()));
    for x in 0..5 {
        for y in 0..4 {
            assert!(level.is_move_possible((x, y), (x, y)));
        }
    }
}

#[test]
fn edge_aliasing_both_ways() {
    let mut level: Level<(), i32> = Level::new(6, 6, 0);
    level.set_wall(2, 3, WallPosition::Top, Some(7));
    assert_eq!(level.wall(2, 4, WallPosition::Bottom), &Some(7));
    level.set_wall(3, 1, WallPosition::Left, Some(9));
    assert_eq!(level.wall(2, 1, WallPosition::Right), &Some(9));
    level.set_wall(2, 1, WallPosition::Right, None);
    assert_eq!(level.wall(3, 1, WallPosition::Left), &None);
    for x in 0..5 {
        for y in 0..6 {
            assert_eq!(
                level.wall(x, y, WallPosition::Right),
                level.wall(x + 1, y, WallPosition::Left)
            );
        }
    }
    for x in 0..6 {
        for y in 0..5 {
            assert_eq!(
                level.wall(x, y, WallPosition::Top),
                level.wall(x, y + 1, WallPosition::Bottom)
            );
        }
    }
}

#[test]
fn border_walls_cover_the_whole_boundary() {
    let mut level: Level<(), i32> = Level::new(4, 3, 0);
    level.add_border_walls(5);
    for x in 0..4 {
        assert_eq!(level.wall(x, 0, WallPosition::Bottom), &Some(5));
        assert_eq!(level.wall(x, 2, WallPosition::Top), &Some(5));
    }
    for y in 0..3 {
        assert_eq!(level.wall(0, y, WallPosition::Left), &Some(5));
        assert_eq!(level.wall(3, y, WallPosition::Right), &Some(5));
    }
    // No edge between two tiles got a wall.
    for x in 0..3 {
        for y in 0..3 {
            assert!(level.wall(x, y, WallPosition::Right).is_none());
        }
    }
    for x in 0..4 {
        for y in 0..2 {
            assert!(level.wall(x, y, WallPosition::Top).is_none());
        }
    }
}

#[test]
fn border_walls_on_a_single_tile() {
    let mut level: Level<(), i32> = Level::new(1, 1, 0);
    level.add_border_walls(1);
    assert_eq!(level.wall(0, 0, WallPosition::Left), &Some(1));
    assert_eq!(level.wall(0, 0, WallPosition::Right), &Some(1));
    assert_eq!(level.wall(0, 0, WallPosition::Top), &Some(1));
    assert_eq!(level.wall(0, 0, WallPosition::Bottom), &Some(1));
}

#[test]
fn border_walls_keep_existing_inner_walls() {
    let mut level: Level<(), i32> = Level::new(5, 5, 0);
    level.set_wall(2, 2, WallPosition::Right, Some(8));
    level.add_border_walls(1);
    assert_eq!(level.wall(2, 2, WallPosition::Right), &Some(8));
    assert_eq!(level.wall(2, 2, WallPosition::Top), &None);
}

#[test]
fn cliff_threshold_is_inclusive() {
    let mut level: Level<(), i32> = Level::new(4, 4, 0);
    level.set_z(1, 1, 3);
    level.set_z(2, 1, 5);
    level.add_cliff_walls(3, 1);
    // |3 - 0| == 3: walls on every side of (1, 1) that looks at a flat tile.
    assert_eq!(level.wall(1, 1, WallPosition::Top), &Some(1));
    assert_eq!(level.wall(1, 1, WallPosition::Bottom), &Some(1));
    assert_eq!(level.wall(1, 1, WallPosition::Left), &Some(1));
    // |5 - 3| == 2: no wall between (1, 1) and (2, 1).
    assert_eq!(level.wall(1, 1, WallPosition::Right), &None);
    // |5 - 0| >= 3 around (2, 1).
    assert_eq!(level.wall(2, 1, WallPosition::Right), &Some(1));
    assert_eq!(level.wall(2, 1, WallPosition::Top), &Some(1));
    assert_eq!(level.wall(2, 1, WallPosition::Bottom), &Some(1));
    // Flat ground stays open.
    assert_eq!(level.wall(0, 3, WallPosition::Right), &None);
    assert_eq!(level.wall(3, 3, WallPosition::Bottom), &None);
}

#[test]
fn cliff_walls_on_the_last_row_and_column() {
    let mut level: Level<(), i32> = Level::new(3, 3, 0);
    level.set_z(1, 2, 100);
    level.set_z(2, 1, 100);
    level.add_cliff_walls(1, 1);
    // Between (1, 1) and (1, 2), and between (1, 1) and (2, 1).
    assert_eq!(level.wall(1, 1, WallPosition::Top), &Some(1));
    assert_eq!(level.wall(1, 1, WallPosition::Right), &Some(1));
    // Between (1, 2) and (2, 2), in the last row.
    assert_eq!(level.wall(1, 2, WallPosition::Right), &Some(1));
    assert_eq!(level.wall(0, 2, WallPosition::Right), &Some(1));
    // Between (2, 1) and (2, 2), and between (2, 0) and (2, 1), in the last
    // column.
    assert_eq!(level.wall(2, 1, WallPosition::Top), &Some(1));
    assert_eq!(level.wall(2, 1, WallPosition::Bottom), &Some(1));
    // Between (1, 2) at 100 and the flat (2, 2).
    assert_eq!(level.wall(2, 2, WallPosition::Left), &Some(1));
    // Flat ground stays open, and the border is left alone.
    assert_eq!(level.wall(0, 0, WallPosition::Right), &None);
    assert_eq!(level.wall(2, 2, WallPosition::Right), &None);
    assert_eq!(level.wall(2, 2, WallPosition::Top), &None);
}

#[test]
fn cliff_around_a_tile_of_the_last_column() {
    let mut level: Level = Level::new(3, 3, 0);
    level.set_z(2, 1, 5);
    level.add_cliff_walls(1, ());
    assert!(level.wall(2, 1, WallPosition::Left).is_some());
    assert!(level.wall(2, 1, WallPosition::Bottom).is_some());
    assert!(level.wall(2, 1, WallPosition::Top).is_some());
    assert!(level.wall(2, 1, WallPosition::Right).is_none());
    assert_eq!(level.is_move_possible((2, 0), (2, 1)), false);
    assert_eq!(level.is_move_possible((2, 2), (2, 1)), false);
    assert_eq!(level.is_move_possible((2, 0), (1, 0)), true);
}

#[test]
fn cliff_walls_with_extreme_heights() {
    let mut level: Level<(), i32> = Level::new(2, 2, i32::MIN);
    level.set_z(1, 0, i32::MAX);
    level.add_cliff_walls(i32::MAX, 1);
    assert_eq!(level.wall(0, 0, WallPosition::Right), &Some(1));
    assert_eq!(level.wall(0, 0, WallPosition::Top), &None);
}

#[test]
fn diagonal_blocked_on_both_paths() {
    let mut level: Level = Level::new(10, 10, 0);
    assert_eq!(level.is_move_possible((0, 0), (1, 1)), true);
    level.set_wall(0, 0, WallPosition::Right, Some(()));
    // The path through (0, 1) is still open.
    assert_eq!(level.is_move_possible((0, 0), (1, 1)), true);
    level.set_wall(0, 0, WallPosition::Top, Some(()));
    assert_eq!(level.is_move_possible((0, 0), (1, 1)), false);
}

#[test]
fn diagonal_blocked_at_the_corner() {
    let mut level: Level = Level::new(10, 10, 0);
    // Close the second step of both L-shaped paths.
    level.set_wall(5, 4, WallPosition::Top, Some(()));
    level.set_wall(4, 5, WallPosition::Right, Some(()));
    assert_eq!(level.is_move_possible((4, 4), (5, 5)), false);
    assert_eq!(level.is_move_possible((4, 4), (5, 4)), true);
    assert_eq!(level.is_move_possible((4, 4), (4, 5)), true);
}

#[test]
fn moves_out_of_the_level() {
    let level: Level = Level::new(3, 3, 0);
    assert_eq!(level.is_move_possible((2, 2), (3, 2)), false);
    assert_eq!(level.is_move_possible((2, 2), (3, 3)), false);
    assert_eq!(level.is_move_possible((0, 0), (usize::MAX, 0)), false);
    assert_eq!(level.is_move_possible((0, 0), (0, 2)), false);
}

#[test]
fn simple_wall_kinds() {
    assert!(SimpleWall::Cliff.is_cliff());
    assert!(!SimpleWall::Cliff.is_border());
    assert!(SimpleWall::Border.is_border());
    assert!(!SimpleWall::Border.is_cliff());
    assert!(!SimpleWall::Normal.is_cliff());
    assert!(!SimpleWall::Normal.is_border());
    assert_eq!(SimpleWall::default(), SimpleWall::Normal);
    assert!(!().is_cliff());
    assert!(!().is_border());
}

#[test]
fn simple_walls_in_a_level() {
    let mut level: Level<(), SimpleWall> = Level::new(20, 20, 0);
    level.set_z(4, 4, 2);
    level.add_border_walls(SimpleWall::Normal);
    level.add_cliff_walls(1, SimpleWall::Cliff);
    assert_eq!(level.wall(4, 4, WallPosition::Top), &Some(SimpleWall::Cliff));
    assert_eq!(level.wall(0, 4, WallPosition::Left), &Some(SimpleWall::Normal));
}
