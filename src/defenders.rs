use vstd::prelude::*;
use crate::attributes::{BuildingType, SpriteIndex};
use crate::buildings::{
    carries_facets, decode_building_type, entities_known, facets_assembled, lanes_in_range,
    lemma_assembled_carries, lemma_carries_kept, only_touches, record_tile,
    spec_decode_building_type, spec_record_tile, world_unchanged, BuildingRecord,
};
use crate::components::{Aura, Clickable, Position, Range, RenderVariant, Renderable, World, Z_UNITS};
use crate::entity::Entity;
use crate::errors::{dev_error, PadlError, PadlErrorCode, PadlResult};
use crate::tiling::{spec_tile_area, TileIndex, TileState, TileType, Town};

verus! {

/// The outcome of assembling a defender on `c`: outside the grid, on a
/// lane or on a building the error `NotBuildable`, without identifiers left `EntityLimit`,
/// town and world unchanged either way; else a new entity with position,
/// appearance, clickability, a range where given and an aura where
/// `spec_has_aura` holds, recorded as a unit at `c` after the town cleared
/// any unit standing there.
pub open spec fn defender_assembled(
    town: Town,
    town2: Town,
    world: World,
    world2: World,
    r: PadlResult<Entity>,
    c: TileIndex,
    bt: BuildingType,
    ap: Option<i64>,
    attacks_per_cycle: Option<i64>,
    range: Option<u32>,
) -> bool {
    if !town.in_bounds(c) || town.spec_walkable(c) || town.spec_holds_building(c) {
        &&& r == Err::<Entity, PadlError>(dev_error(PadlErrorCode::NotBuildable))
        &&& town2 == town
        &&& world_unchanged(world, world2)
    } else if world.next_id == u32::MAX {
        &&& r == Err::<Entity, PadlError>(dev_error(PadlErrorCode::EntityLimit))
        &&& town2 == town
        &&& world_unchanged(world, world2)
    } else {
        &&& r is Ok
        &&& r->Ok_0.id == world.next_id
        &&& world2.next_id == world.next_id + 1
        &&& facets_assembled(
            world,
            world2,
            r->Ok_0,
            Position {
                area: spec_tile_area(c, town.spec_resolution().unit_length),
                z: Z_UNITS,
            },
            RenderVariant::ImgWithImgBackground(bt.spec_sprite(), SpriteIndex::Grass),
            ap,
            attacks_per_cycle,
            range,
            lanes_in_range(town, c, range->0),
            None,
        )
        &&& town2.spec_width() == town.spec_width()
        &&& town2.spec_height() == town.spec_height()
        &&& town2.spec_resolution() == town.spec_resolution()
        &&& town2.spec_tile(c) == Some(TileType::Building(r->Ok_0))
        &&& town2.spec_state(c) == Some(
            TileState { entity: r->Ok_0, building_type: bt, transient: true },
        )
        &&& forall|d: TileIndex|
            d != c ==> #[trigger] town2.spec_tile(d) == town.spec_tile(d) && town2.spec_state(d)
                == town.spec_state(d)
    }
}

impl Town {
    /// Places a new defender of kind `bt`, with the statistics that its kind has.
    pub fn insert_new_defender(&mut self, world: &mut World, pos: TileIndex, bt: BuildingType) -> (r:
        PadlResult<Entity>)
        requires
            old(self).wf(),
            old(world).wf(),
        ensures
            final(self).wf(),
            final(world).wf(),
            entities_known(*old(self), *old(world)) ==> entities_known(*final(self), *final(world)),
            entities_known(*old(self), *old(world)) && r is Ok ==> forall|d: TileIndex| #[trigger]
                old(self).spec_state(d) is Some ==> old(self).spec_state(d)->0.entity != r->Ok_0,
            defender_assembled(
                *old(self),
                *final(self),
                *old(world),
                *final(world),
                r,
                pos,
                bt,
                bt.spec_attack_power(),
                bt.spec_attacks_per_cycle(),
                bt.spec_range(),
            ),
    {
        self.insert_defender(world, pos, bt, bt.attack_power(), bt.attacks_per_cycle(), bt.range())
    }

    /// Assembles a defender on tile `tile_index`, first clearing any unit
    /// standing there, and registers it with the town as a unit.
    pub fn insert_defender(
        &mut self,
        world: &mut World,
        tile_index: TileIndex,
        bt: BuildingType,
        ap: Option<i64>,
        attacks_per_cycle: Option<i64>,
        range: Option<u32>,
    ) -> (r: PadlResult<Entity>)
        requires
            old(self).wf(),
            old(world).wf(),
        ensures
            final(self).wf(),
            final(world).wf(),
            entities_known(*old(self), *old(world)) ==> entities_known(*final(self), *final(world)),
            entities_known(*old(self), *old(world)) && r is Ok ==> forall|d: TileIndex| #[trigger]
                old(self).spec_state(d) is Some ==> old(self).spec_state(d)->0.entity != r->Ok_0,
            defender_assembled(
                *old(self),
                *final(self),
                *old(world),
                *final(world),
                r,
                tile_index,
                bt,
                ap,
                attacks_per_cycle,
                range,
            ),
    {
        if tile_index.0 >= self.width() || tile_index.1 >= self.height() || self.is_walkable(
            tile_index,
        ) {
            return Err(PadlError::dev_err(PadlErrorCode::NotBuildable));
        }
        let on_building = match self.tile_state(tile_index) {
            Some(s) => !s.transient,
            None => false,
        };
        if on_building {
            return Err(PadlError::dev_err(PadlErrorCode::NotBuildable));
        }
        if world.next_id == u32::MAX {
            return Err(PadlError::dev_err(PadlErrorCode::EntityLimit));
        }
        proof {
            self.lemma_area_fits(tile_index);
        }
        let area = self.tile_area(tile_index);
        let ghost pre = *self;
        self.make_room_for_building(tile_index);
        proof {
            pre.lemma_agrees(tile_index);
            assert forall|t: TileIndex| #[trigger] self.spec_walkable(t) == pre.spec_walkable(t) by {
                if t != tile_index {
                    assert(self.spec_tile(t) == pre.spec_tile(t));
                }
            }
            if let Some(r) = range {
                assert(lanes_in_range(*self, tile_index, r) =~= lanes_in_range(pre, tile_index, r));
            }
            match pre.spec_tile(tile_index) {
                Some(TileType::Building(_)) => {
                    assert(pre.spec_state(tile_index) is Some);
                },
                _ => {
                    assert(pre.spec_state(tile_index) is None);
                    assert(self.spec_tile(tile_index) == pre.spec_tile(tile_index));
                },
            }
            assert(self.spec_buildable(tile_index));
        }
        let e = match world.create_entity() {
            Some(e) => e,
            None => {
                return Err(PadlError::dev_err(PadlErrorCode::EntityLimit));
            },
        };
        world.positions.insert(e, Position { area, z: Z_UNITS });
        world.renderables.insert(
            e,
            Renderable { kind: RenderVariant::ImgWithImgBackground(bt.sprite(), SpriteIndex::Grass) },
        );
        world.clickables.insert(e, Clickable {  });
        if let Some(r) = range {
            world.ranges.insert(e, Range { range: r });
        }
        // No attacks per cycle, but an attack power: an aura
        if attacks_per_cycle.is_none() && ap.is_some() {
            if let Some(r) = range {
                let aura = Aura::new(r, ap.unwrap(), tile_index, self);
                world.auras.insert(e, aura);
            }
        }
        self.place(tile_index, bt, e, true);
        proof {
            if entities_known(*old(self), *old(world)) {
                assert forall|d: TileIndex| #[trigger] self.spec_state(d) is Some implies self.spec_state(
                    d,
                )->0.entity.id < world.next_id by {
                    if d != tile_index {
                        assert(self.spec_tile(d) == old(self).spec_tile(d));
                    }
                }
            }
        }
        Ok(e)
    }
}

impl BuildingRecord {
    /// The outcome of importing this record as a defender into `town` and `world`.
    pub open spec fn defender_imported(
        &self,
        town: Town,
        town2: Town,
        world: World,
        world2: World,
        r: PadlResult<Entity>,
    ) -> bool {
        match spec_decode_building_type(self.building_type) {
            None => r == Err::<Entity, PadlError>(
                dev_error(PadlErrorCode::UnexpectedBuildingType),
            ) && town2 == town && world_unchanged(world, world2),
            Some(bt) => match spec_record_tile(self.x, self.y) {
                None => r == Err::<Entity, PadlError>(dev_error(PadlErrorCode::NotBuildable))
                    && town2 == town && world_unchanged(world, world2),
                Some(c) => defender_assembled(
                    town,
                    town2,
                    world,
                    world2,
                    r,
                    c,
                    bt,
                    self.attack_power,
                    self.attacks_per_cycle,
                    self.building_range,
                ),
            },
        }
    }

    /// Entity `e` of `w` carries the facets that importing this record as a
    /// defender gives, at tile edge length `ul`.
    pub open spec fn defender_facets(&self, w: World, e: Entity, ul: u32) -> bool {
        let bt = spec_decode_building_type(self.building_type)->0;
        let c = spec_record_tile(self.x, self.y)->0;
        carries_facets(
            w,
            e,
            Position { area: spec_tile_area(c, ul), z: Z_UNITS },
            RenderVariant::ImgWithImgBackground(bt.spec_sprite(), SpriteIndex::Grass),
            self.attack_power,
            self.attacks_per_cycle,
            self.building_range,
            None,
        )
    }

    proof fn lemma_defender_carries(
        &self,
        town: Town,
        town2: Town,
        world: World,
        world2: World,
        r: PadlResult<Entity>,
    )
        requires
            world.wf(),
            r is Ok,
            self.defender_imported(town, town2, world, world2, r),
        ensures
            self.defender_facets(world2, r->Ok_0, town.spec_resolution().unit_length),
            only_touches(world, world2, r->Ok_0.id),
    {
        let bt = spec_decode_building_type(self.building_type)->0;
        let c = spec_record_tile(self.x, self.y)->0;
        lemma_assembled_carries(
            world,
            world2,
            r->Ok_0,
            Position { area: spec_tile_area(c, town.spec_resolution().unit_length), z: Z_UNITS },
            RenderVariant::ImgWithImgBackground(bt.spec_sprite(), SpriteIndex::Grass),
            self.attack_power,
            self.attacks_per_cycle,
            self.building_range,
            lanes_in_range(town, c, self.building_range->0),
            None,
        );
    }

    proof fn lemma_defender_kept(&self, pre: World, post: World, id: u32, e: Entity, ul: u32)
        requires
            self.defender_facets(pre, e, ul),
            only_touches(pre, post, id),
            e.id != id,
        ensures
            self.defender_facets(post, e, ul),
    {
        let bt = spec_decode_building_type(self.building_type)->0;
        let c = spec_record_tile(self.x, self.y)->0;
        lemma_carries_kept(
            pre,
            post,
            id,
            e,
            Position { area: spec_tile_area(c, ul), z: Z_UNITS },
            RenderVariant::ImgWithImgBackground(bt.spec_sprite(), SpriteIndex::Grass),
            self.attack_power,
            self.attacks_per_cycle,
            self.building_range,
            None,
        );
    }

    /// The record names a known kind, on a tile of `town` that is neither a
    /// lane nor a building.
    pub open spec fn defender_ok(&self, town: Town) -> bool {
        &&& spec_decode_building_type(self.building_type) is Some
        &&& spec_record_tile(self.x, self.y) is Some
        &&& town.in_bounds(spec_record_tile(self.x, self.y)->0)
        &&& !town.spec_walkable(spec_record_tile(self.x, self.y)->0)
        &&& !town.spec_holds_building(spec_record_tile(self.x, self.y)->0)
    }

    /// Turns the record into a defender of the town, with the statistics
    /// that the server gives.
    pub fn create_defender_entity(&self, town: &mut Town, world: &mut World) -> (r: PadlResult<
        Entity,
    >)
        requires
            old(town).wf(),
            old(world).wf(),
            self.spec_known_kind(),
        ensures
            final(town).wf(),
            final(world).wf(),
            entities_known(*old(town), *old(world)) ==> entities_known(*final(town), *final(world)),
            self.defender_imported(*old(town), *final(town), *old(world), *final(world), r),
    {
        let bt = match decode_building_type(&self.building_type) {
            Ok(bt) => bt,
            Err(e) => {
                return Err(e);
            },
        };
        let coordinates = match record_tile(self.x, self.y) {
            Some(c) => c,
            None => {
                return Err(PadlError::dev_err(PadlErrorCode::NotBuildable));
            },
        };
        town.insert_defender(
            world,
            coordinates,
            bt,
            self.attack_power,
            self.attacks_per_cycle,
            self.building_range,
        )
    }
}

/// Imports the defender records in order; stops at the first that fails,
/// which happens only where a record is not `defender_ok` or the world runs
/// out of identifiers.
pub fn create_defender_entities(
    records: &Vec<BuildingRecord>,
    town: &mut Town,
    world: &mut World,
) -> (r: PadlResult<Vec<Entity>>)
    requires
        old(town).wf(),
        old(world).wf(),
        forall|i: int| 0 <= i < records@.len() ==> (#[trigger] records@[i]).spec_known_kind(),
    ensures
        final(town).wf(),
        final(world).wf(),
        entities_known(*old(town), *old(world)) ==> entities_known(*final(town), *final(world)),
        final(town).spec_width() == old(town).spec_width(),
        final(town).spec_height() == old(town).spec_height(),
        match r {
            Ok(v) => {
                &&& v@.len() == records@.len()
                &&& final(world).next_id == old(world).next_id + records@.len()
                &&& forall|i: int|
                    0 <= i < v@.len() ==> {
                        &&& (#[trigger] v@[i]).id == old(world).next_id + i
                        &&& records@[i].defender_facets(
                            *final(world),
                            v@[i],
                            old(town).spec_resolution().unit_length,
                        )
                    }
            },
            Err(e) => {
                &&& e.spec_is_fatal()
                &&& (old(world).next_id + records@.len() > u32::MAX || exists|i: int|
                    0 <= i < records@.len() && !(#[trigger] records@[i]).defender_ok(*old(town)))
            },
        },
{
    let mut entities: Vec<Entity> = Vec::new();
    let mut i: usize = 0;
    while i < records.len()
        invariant
            i <= records@.len(),
            town.wf(),
            world.wf(),
            town.spec_width() == old(town).spec_width(),
            town.spec_height() == old(town).spec_height(),
            forall|j: int| 0 <= j < records@.len() ==> (#[trigger] records@[j]).spec_known_kind(),
            forall|d: TileIndex| #[trigger] town.spec_walkable(d) == old(town).spec_walkable(d),
            forall|d: TileIndex| #[trigger]
                town.spec_holds_building(d) == old(town).spec_holds_building(d),
            entities@.len() == i,
            world.next_id == old(world).next_id + i,
            entities_known(*old(town), *old(world)) ==> entities_known(*town, *world),
            town.spec_resolution() == old(town).spec_resolution(),
            forall|j: int| 0 <= j < i ==> (#[trigger] entities@[j]).id == old(world).next_id + j,
            forall|j: int|
                0 <= j < i ==> #[trigger] records@[j].defender_facets(
                    *world,
                    entities@[j],
                    old(town).spec_resolution().unit_length,
                ),
        decreases records@.len() - i,
    {
        let ghost pre_world = *world;
        let ghost pre_town = *town;
        assert(records@[i as int].spec_known_kind());
        let res = records[i].create_defender_entity(town, world);
        match res {
            Ok(e) => {
                proof {
                    records@[i as int].lemma_defender_carries(pre_town, *town, pre_world, *world, res);
                    assert forall|j: int| 0 <= j < i implies #[trigger] records@[j].defender_facets(
                        *world,
                        entities@[j],
                        old(town).spec_resolution().unit_length,
                    ) by {
                        records@[j].lemma_defender_kept(
                            pre_world,
                            *world,
                            e.id,
                            entities@[j],
                            old(town).spec_resolution().unit_length,
                        );
                    }
                    let c = spec_record_tile(records@[i as int].x, records@[i as int].y)->0;
                    assert forall|d: TileIndex|
                        #![trigger town.spec_walkable(d)]
                        #![trigger town.spec_holds_building(d)]
                        town.spec_walkable(d) == old(town).spec_walkable(d)
                            && town.spec_holds_building(d) == old(town).spec_holds_building(d) by {
                        assert(pre_town.spec_walkable(d) == old(town).spec_walkable(d));
                        assert(pre_town.spec_holds_building(d) == old(town).spec_holds_building(d));
                        if d != c {
                            assert(town.spec_tile(d) == pre_town.spec_tile(d));
                        } else {
                            assert(!pre_town.spec_walkable(c));
                            assert(!pre_town.spec_holds_building(c));
                            assert(town.spec_state(c)->0.transient);
                            assert(town.spec_tile(c) == Some(TileType::Building(e)));
                        }
                    }
                }
                entities.push(e);
            },
            Err(err) => {
                proof {
                    if records@[i as int].defender_ok(*old(town)) {
                        assert(pre_world.next_id == u32::MAX);
                    }
                }
                return Err(err);
            },
        }
        i = i + 1;
    }
    Ok(entities)
}

} // verus!
