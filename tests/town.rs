use paddlers_frontend::attributes::BuildingType;
use paddlers_frontend::entity::Entity;
use paddlers_frontend::tiling::{Rectangle, ScreenResolution, TileState, TileType, Town};
use paddlers_frontend::timestamp::parse_timestamp;

fn town() -> Town {
    Town::new(10, 8, 6, ScreenResolution { unit_length: 100 })
}

#[test]
fn tiles_outside_the_grid_are_neither_buildable_nor_walkable() {
    let t = town();
    for c in [(10, 0), (0, 8), (10, 8), (usize::MAX, 3), (3, usize::MAX)] {
        assert_eq!(t.tile_type(c), None);
        assert!(!t.is_buildable(c));
        assert!(!t.is_walkable(c));
        assert!(t.tile_state(c).is_none());
    }
}

#[test]
fn lane_tiles_are_walkable_and_never_buildable() {
    let t = town();
    for x in 0..10 {
        assert_eq!(t.tile_type((x, 6)), Some(TileType::Lane));
        assert!(t.is_walkable((x, 6)));
        assert!(!t.is_buildable((x, 6)));
    }
    assert_eq!(t.tile_type((3, 5)), Some(TileType::Empty));
    assert!(t.is_buildable((3, 5)));
    assert!(!t.is_walkable((3, 5)));
}

#[test]
fn placed_building_occupies_its_tile_until_removed() {
    let mut t = town();
    let e = Entity { id: 7 };
    t.place_building((2, 3), BuildingType::Tree, e);
    assert_eq!(t.tile_state((2, 3)), Some(&TileState { entity: e, building_type: BuildingType::Tree, transient: false }));
    assert_eq!(t.tile_type((2, 3)), Some(TileType::Building(e)));
    assert!(!t.is_buildable((2, 3)));
    assert!(t.is_buildable((2, 4)));
    assert_eq!(t.remove_building((2, 3)), Some(e));
    assert_eq!(t.tile_type((2, 3)), Some(TileType::Empty));
    assert!(t.tile_state((2, 3)).is_none());
    assert!(t.is_buildable((2, 3)));
    assert_eq!(t.remove_building((2, 3)), None);
}

#[test]
fn making_room_clears_a_unit_but_keeps_buildings_and_lanes() {
    let mut t = town();
    let e = Entity { id: 1 };
    t.place((4, 4), BuildingType::RedFlowers, e, true);
    assert_eq!(t.make_room_for_building((4, 4)), Some(e));
    assert_eq!(t.tile_type((4, 4)), Some(TileType::Empty));
    let b = Entity { id: 2 };
    t.place_building((5, 4), BuildingType::Tree, b);
    assert_eq!(t.make_room_for_building((5, 4)), None);
    assert_eq!(t.tile_type((5, 4)), Some(TileType::Building(b)));
    assert_eq!(t.make_room_for_building((4, 6)), None);
    assert_eq!(t.tile_type((4, 6)), Some(TileType::Lane));
}

#[test]
fn range_test_is_symmetric() {
    let pairs = [((0, 0), (1, 1)), ((5, 2), (3, 7)), ((0, 9), (9, 0)), ((4, 4), (4, 4))];
    for (a, b) in pairs {
        for r in [0, 999, 1000, 1414, 1415, 1500, 5000, u32::MAX] {
            assert_eq!(Town::are_tiles_in_range(a, b, r), Town::are_tiles_in_range(b, a, r));
        }
    }
}

#[test]
fn range_test_uses_rectified_squared_distance() {
    // 1 + 1 = 2 against 1.5 * 1.5 = 2.25
    assert!(Town::are_tiles_in_range((0, 0), (1, 1), 1500));
    // 1.414 * 1.414 < 2
    assert!(!Town::are_tiles_in_range((0, 0), (1, 1), 1414));
    assert!(Town::are_tiles_in_range((3, 0), (0, 4), 5000));
    assert!(!Town::are_tiles_in_range((3, 0), (0, 4), 4999));
    assert!(Town::are_tiles_in_range((2, 2), (2, 2), 0));
    assert!(!Town::are_tiles_in_range((0, 0), (usize::MAX, 0), u32::MAX));
}

#[test]
fn rectified_circle_of_one_tile() {
    let mut tiles = Town::tiles_in_rectified_circle((5, 5), 1000);
    tiles.sort();
    assert_eq!(tiles, vec![(4, 5), (5, 4), (5, 5), (5, 6), (6, 5)]);
    assert_eq!(Town::tiles_in_rectified_circle((5, 5), 0), vec![(5, 5)]);
    let mut corner = Town::tiles_in_rectified_circle((0, 0), 1000);
    corner.sort();
    assert_eq!(corner, vec![(0, 0), (0, 1), (1, 0)]);
    assert_eq!(Town::tiles_in_rectified_circle((0, 0), 1500).len(), 4);
}

#[test]
fn lane_tiles_in_range() {
    let t = town();
    let mut lanes = t.lane_in_range((3, 5), 1500);
    lanes.sort();
    assert_eq!(lanes, vec![(2, 6), (3, 6), (4, 6)]);
    assert!(t.lane_in_range((3, 2), 1500).is_empty());
}

#[test]
fn pixel_positions_map_to_tiles_by_truncation() {
    assert_eq!(Town::find_tile((250, 99), 100), (2, 0));
    assert_eq!(Town::find_tile((0, 100), 100), (0, 1));
    let res = ScreenResolution { unit_length: 60 };
    assert_eq!(res.tile((119, 120)), (1, 2));
}

#[test]
fn tile_area_is_one_unit_square() {
    let res = ScreenResolution { unit_length: 100 };
    assert_eq!(res.tile_area((2, 3)), Rectangle { x: 200, y: 300, width: 100, height: 100 });
    assert_eq!(town().tile_area((0, 7)), Rectangle { x: 0, y: 700, width: 100, height: 100 });
}

#[test]
fn next_tile_in_direction_rounds_towards_the_direction() {
    let res = ScreenResolution { unit_length: 100 };
    assert_eq!(res.next_tile_in_direction((250, 250), (1, -1)), (3, 2));
    assert_eq!(res.next_tile_in_direction((250, 250), (0, 1)), (2, 3));
    assert_eq!(res.next_tile_in_direction((200, 250), (1, 0)), (2, 2));
}

#[test]
fn creation_times_are_decimal_microseconds() {
    assert_eq!(parse_timestamp("1577836800000000"), Some(1577836800000000));
    assert_eq!(parse_timestamp("0"), Some(0));
    assert_eq!(parse_timestamp("9223372036854775807"), Some(i64::MAX));
    assert_eq!(parse_timestamp("9223372036854775808"), None);
    assert_eq!(parse_timestamp(""), None);
    assert_eq!(parse_timestamp("12a"), None);
    assert_eq!(parse_timestamp("-5"), None);
    assert_eq!(parse_timestamp("2020-01-01T00:00:00Z"), None);
}

#[test]
fn shadow_covers_the_circle_around_the_tile_under_the_cursor() {
    let res = ScreenResolution { unit_length: 100 };
    let mut tiles = Town::shadow_rectified_circle(res, (250, 199), 1000);
    tiles.sort();
    assert_eq!(tiles, vec![(1, 1), (2, 0), (2, 1), (2, 2), (3, 1)]);
}
