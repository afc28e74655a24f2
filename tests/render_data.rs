use isometric::{Corner, CornerHeight, Level, SimpleWall, WallFace, WallPosition};

fn sample_level() -> Level {
    let mut level: Level = Level::new(3, 3, 0);
    level.set_z(1, 1, 4);
    level.set_z(0, 0, 8);
    level.set_z(2, 0, 5);
    level
}

#[test]
fn open_corner_averages_all_four_tiles() {
    let level = sample_level();
    assert_eq!(level.corner_height(1, 1, Corner::BottomLeft), CornerHeight { sum: 12, count: 4 });
    assert_eq!(level.corner_height(1, 1, Corner::BottomRight), CornerHeight { sum: 9, count: 4 });
    assert_eq!(level.corner_height(1, 1, Corner::TopRight), CornerHeight { sum: 4, count: 4 });
}

#[test]
fn walls_keep_tiles_out_of_a_corner() {
    let mut level = sample_level();
    level.set_wall(1, 1, WallPosition::Left, Some(()));
    // The left neighbour is cut off, and with it the tile across the corner.
    assert_eq!(level.corner_height(1, 1, Corner::BottomLeft), CornerHeight { sum: 4, count: 2 });
    // The bottom-right corner does not look through the left side.
    assert_eq!(level.corner_height(1, 1, Corner::BottomRight), CornerHeight { sum: 9, count: 4 });
    // Across the top-left corner, guarded by the top side, still reachable
    // through (1, 2).
    assert_eq!(level.corner_height(1, 1, Corner::TopLeft), CornerHeight { sum: 4, count: 3 });
}

#[test]
fn corner_at_the_edge_of_the_level() {
    let level = sample_level();
    assert_eq!(level.corner_height(2, 2, Corner::TopRight), CornerHeight { sum: 0, count: 1 });
    assert_eq!(level.corner_height(0, 0, Corner::BottomLeft), CornerHeight { sum: 8, count: 1 });
    assert_eq!(level.corner_height(0, 0, Corner::TopRight), CornerHeight { sum: 12, count: 4 });
}

#[test]
fn border_faces_in_order() {
    let mut level: Level<(), SimpleWall> = Level::new(2, 1, 0);
    level.add_border_walls(SimpleWall::Normal);
    let face = |horizontal, x, y| WallFace { horizontal, x, y, bottom: 0, top: 1 };
    assert_eq!(
        level.wall_faces(),
        vec![
            face(true, 0, 0),
            face(false, 0, 0),
            face(true, 0, 1),
            face(true, 1, 0),
            face(true, 1, 1),
            face(false, 2, 0),
        ]
    );
}

#[test]
fn cliff_faces_reach_the_other_side() {
    let mut level: Level<(), SimpleWall> = Level::new(2, 2, 0);
    level.set_z(1, 0, 3);
    level.add_cliff_walls(1, SimpleWall::Cliff);
    assert_eq!(
        level.wall_faces(),
        vec![
            WallFace { horizontal: false, x: 1, y: 0, bottom: 0, top: 3 },
            WallFace { horizontal: false, x: 1, y: 0, bottom: 3, top: 0 },
            WallFace { horizontal: true, x: 1, y: 1, bottom: 3, top: 0 },
            WallFace { horizontal: true, x: 1, y: 1, bottom: 0, top: 3 },
        ]
    );
}

#[test]
fn normal_faces_rise_one_unit() {
    let mut level: Level<(), SimpleWall> = Level::new(2, 2, 0);
    level.set_z(1, 0, 3);
    level.set_wall(0, 0, WallPosition::Right, Some(SimpleWall::Normal));
    assert_eq!(
        level.wall_faces(),
        vec![
            WallFace { horizontal: false, x: 1, y: 0, bottom: 0, top: 1 },
            WallFace { horizontal: false, x: 1, y: 0, bottom: 3, top: 4 },
        ]
    );
}

#[test]
fn cliff_on_the_border_rises_one_unit() {
    let mut level: Level<(), SimpleWall> = Level::new(1, 1, 7);
    level.set_wall(0, 0, WallPosition::Top, Some(SimpleWall::Cliff));
    assert_eq!(
        level.wall_faces(),
        vec![WallFace { horizontal: true, x: 0, y: 1, bottom: 7, top: 8 }]
    );
}

#[test]
fn empty_level_has_no_faces() {
    let level: Level<(), SimpleWall> = Level::new(4, 4, 0);
    assert!(level.wall_faces().is_empty());
}
