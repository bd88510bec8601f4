use paddlers_frontend::attributes::{BuildingType, SpriteIndex};
use paddlers_frontend::buildings::{
    create_entities, decode_building_type, BuildingRecord, WireBuildingType,
};
use paddlers_frontend::defenders::create_defender_entities;
use paddlers_frontend::components::{
    Clickable, DynamicSprite, Position, Range, RenderVariant, Renderable, World, Z_BUILDINGS,
    Z_UNITS,
};
use paddlers_frontend::entity::Entity;
use paddlers_frontend::errors::{ErrorChannel, PadlError, PadlErrorCode};
use paddlers_frontend::tiling::{Rectangle, ScreenResolution, TileState, TileType, Town};

fn town() -> Town {
    Town::new(10, 8, 6, ScreenResolution { unit_length: 100 })
}

fn record(x: i64, y: i64, building_type: WireBuildingType) -> BuildingRecord {
    BuildingRecord {
        x,
        y,
        building_type,
        attack_power: None,
        attacks_per_cycle: None,
        building_range: None,
        creation: "2020-01-01T00:00:00Z".to_string(),
    }
}

#[test]
fn bundling_station_record_gets_a_container_and_no_range_or_aura() {
    let mut t = town();
    let mut w = World::new();
    let rec = record(3, 4, WireBuildingType::BUNDLING_STATION);
    let e = rec.create_entity(&mut t, &mut w).unwrap();
    assert_eq!(
        w.positions.get(e),
        Some(&Position { area: Rectangle { x: 300, y: 400, width: 100, height: 100 }, z: Z_BUILDINGS })
    );
    assert_eq!(
        w.renderables.get(e),
        Some(&Renderable {
            kind: RenderVariant::ImgWithImgBackground(SpriteIndex::BundlingStation, SpriteIndex::Grass)
        })
    );
    assert_eq!(w.clickables.get(e), Some(&Clickable {}));
    let container = w.containers.get(e).unwrap();
    assert_eq!(container.capacity, BuildingType::BundlingStation.capacity());
    assert_eq!(container.capacity, 4);
    assert_eq!(container.name, "Working");
    assert!(container.children.is_empty());
    assert!(!w.ranges.contains(e));
    assert!(!w.auras.contains(e));
    assert_eq!(
        t.tile_state((3, 4)),
        Some(&TileState { entity: e, building_type: BuildingType::BundlingStation, transient: false })
    );
}

#[test]
fn range_facet_is_the_given_range() {
    let mut t = town();
    let mut w = World::new();
    let e = t
        .insert_bulding(&mut w, (1, 1), BuildingType::RedFlowers, None, None, Some(2500), 0)
        .unwrap();
    assert_eq!(w.ranges.get(e), Some(&Range { range: 2500 }));
    let f = t
        .insert_bulding(&mut w, (2, 1), BuildingType::RedFlowers, Some(3), None, None, 0)
        .unwrap();
    assert!(!w.ranges.contains(f));
    assert!(!w.auras.contains(f));
}

#[test]
fn aura_only_for_power_and_range_without_attack_cadence() {
    let cases = [
        (None, None, false),
        (None, Some(4), true),
        (Some(2), None, false),
        (Some(2), Some(4), false),
    ];
    for (i, (apc, ap, expected)) in cases.into_iter().enumerate() {
        let mut t = town();
        let mut w = World::new();
        let e = t
            .insert_bulding(&mut w, (i, 5), BuildingType::BlueFlowers, ap, apc, Some(1000), 0)
            .unwrap();
        assert_eq!(w.auras.contains(e), expected);
        assert!(w.ranges.contains(e));
    }
}

#[test]
fn aura_covers_the_lane_tiles_in_range() {
    let mut t = town();
    let mut w = World::new();
    let e = t.insert_new_bulding(&mut w, (3, 5), BuildingType::BlueFlowers, 0).unwrap();
    let aura = w.auras.get(e).unwrap();
    assert_eq!(aura.range, 2000);
    assert_eq!(aura.effect, 1);
    let mut tiles = aura.affected_tiles.clone();
    tiles.sort();
    assert_eq!(tiles, vec![(2, 6), (3, 6), (4, 6)]);
    assert_eq!(w.ranges.get(e), Some(&Range { range: 2000 }));
}

#[test]
fn tree_record_ages_from_its_creation_time() {
    let mut t = town();
    let mut w = World::new();
    let mut rec = record(0, 0, WireBuildingType::TREE);
    rec.creation = "1577836800000000".to_string();
    rec.attack_power = Some(3);
    rec.building_range = Some(1500);
    let e = rec.create_entity(&mut t, &mut w).unwrap();
    assert_eq!(
        w.renderables.get(e),
        Some(&Renderable {
            kind: RenderVariant::DynImgWithImgBackground(
                DynamicSprite { created: 1577836800000000 },
                SpriteIndex::Grass
            )
        })
    );
    assert!(w.auras.contains(e));
}

#[test]
fn tree_record_with_unreadable_creation_does_not_decode() {
    let rec = record(0, 0, WireBuildingType::TREE);
    assert!(rec.has_known_kind());
    assert!(!rec.decodes());
    let mut ok = record(0, 0, WireBuildingType::TREE);
    ok.creation = "17".to_string();
    assert!(ok.decodes());
    // other kinds do not age, so their creation time is not read
    assert!(record(0, 0, WireBuildingType::BUNDLING_STATION).decodes());
}

#[test]
fn unknown_building_type_is_a_developer_error() {
    let rec = record(1, 1, WireBuildingType::Other("TEMPLE".to_string()));
    assert!(!rec.has_known_kind());
    assert!(!rec.decodes());
    let err = decode_building_type(&rec.building_type).unwrap_err();
    assert_eq!(
        err,
        PadlError { channel: ErrorChannel::Technical, code: PadlErrorCode::UnexpectedBuildingType }
    );
    assert!(err.is_fatal());
    assert_eq!(decode_building_type(&WireBuildingType::RED_FLOWERS), Ok(BuildingType::RedFlowers));
    assert_eq!(
        decode_building_type(&WireBuildingType::BUNDLING_STATION),
        Ok(BuildingType::BundlingStation)
    );
}

#[test]
fn building_needs_a_buildable_tile() {
    let mut t = town();
    let mut w = World::new();
    let lane = record(2, 6, WireBuildingType::RED_FLOWERS);
    assert_eq!(lane.create_entity(&mut t, &mut w).unwrap_err().code, PadlErrorCode::NotBuildable);
    let outside = record(-1, 2, WireBuildingType::RED_FLOWERS);
    assert_eq!(outside.create_entity(&mut t, &mut w).unwrap_err().code, PadlErrorCode::NotBuildable);
    let beyond = record(10, 2, WireBuildingType::RED_FLOWERS);
    assert_eq!(beyond.create_entity(&mut t, &mut w).unwrap_err().code, PadlErrorCode::NotBuildable);
    assert_eq!(w.next_id, 0);
}

#[test]
fn records_are_imported_in_order() {
    let mut t = town();
    let mut w = World::new();
    let records = vec![
        record(1, 1, WireBuildingType::RED_FLOWERS),
        record(2, 2, WireBuildingType::BLUE_FLOWERS),
    ];
    let entities = create_entities(&records, &mut t, &mut w).unwrap();
    assert_eq!(entities, vec![Entity { id: 0 }, Entity { id: 1 }]);
    assert_eq!(t.tile_type((2, 2)), Some(TileType::Building(Entity { id: 1 })));
    let mut clash = vec![record(4, 4, WireBuildingType::TREE), record(1, 1, WireBuildingType::TREE)];
    clash[0].creation = "5".to_string();
    clash[1].creation = "5".to_string();
    assert_eq!(create_entities(&clash, &mut t, &mut w).unwrap_err().code, PadlErrorCode::NotBuildable);
    assert_eq!(t.tile_type((4, 4)), Some(TileType::Building(Entity { id: 2 })));
}

#[test]
fn new_building_takes_its_kind_statistics() {
    let mut t = town();
    let mut w = World::new();
    let e = t.insert_new_bulding(&mut w, (5, 5), BuildingType::BundlingStation, 0).unwrap();
    assert!(!w.ranges.contains(e));
    assert!(!w.auras.contains(e));
    assert!(w.containers.contains(e));
    assert_eq!(t.insert_new_bulding(&mut w, (5, 5), BuildingType::Tree, 0).unwrap_err().code, PadlErrorCode::NotBuildable);
}

#[test]
fn defender_displaces_a_unit_but_not_a_building() {
    let mut t = town();
    let mut w = World::new();
    let first = t.insert_new_defender(&mut w, (2, 2), BuildingType::RedFlowers).unwrap();
    let d = t.insert_new_defender(&mut w, (2, 2), BuildingType::BlueFlowers).unwrap();
    assert_ne!(d, first);
    assert_eq!(t.tile_type((2, 2)), Some(TileType::Building(d)));
    assert_eq!(
        t.tile_state((2, 2)),
        Some(&TileState { entity: d, building_type: BuildingType::BlueFlowers, transient: true })
    );
    assert_eq!(w.positions.get(d).unwrap().z, Z_UNITS);
    assert!(!w.containers.contains(d));
    assert!(w.auras.contains(d));
    let flowers = t.insert_new_bulding(&mut w, (3, 3), BuildingType::RedFlowers, 0).unwrap();
    assert_eq!(t.insert_new_defender(&mut w, (3, 3), BuildingType::BlueFlowers).unwrap_err().code, PadlErrorCode::NotBuildable);
    assert_eq!(t.tile_type((3, 3)), Some(TileType::Building(flowers)));
    assert_eq!(t.insert_new_defender(&mut w, (20, 2), BuildingType::BlueFlowers).unwrap_err().code, PadlErrorCode::NotBuildable);
    assert_eq!(t.insert_new_defender(&mut w, (2, 6), BuildingType::BlueFlowers).unwrap_err().code, PadlErrorCode::NotBuildable);
    assert_eq!(w.next_id, 3);
}

#[test]
fn defender_records_trust_the_server_statistics() {
    let mut t = town();
    let mut w = World::new();
    let mut a = record(1, 2, WireBuildingType::BLUE_FLOWERS);
    a.attack_power = Some(6);
    a.building_range = Some(1000);
    let b = record(1, 2, WireBuildingType::TREE);
    let entities = create_defender_entities(&vec![a, b], &mut t, &mut w).unwrap();
    assert_eq!(entities, vec![Entity { id: 0 }, Entity { id: 1 }]);
    assert_eq!(w.auras.get(Entity { id: 0 }).unwrap().effect, 6);
    assert!(!w.ranges.contains(Entity { id: 1 }));
    assert_eq!(t.tile_type((1, 2)), Some(TileType::Building(Entity { id: 1 })));
    let station = record(3, 3, WireBuildingType::BUNDLING_STATION);
    let s = station.create_defender_entity(&mut t, &mut w).unwrap();
    assert_eq!(
        t.tile_state((3, 3)),
        Some(&TileState { entity: s, building_type: BuildingType::BundlingStation, transient: true })
    );
    assert!(!w.containers.contains(s));
}
