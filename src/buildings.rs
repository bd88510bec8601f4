use vstd::prelude::*;
use crate::attributes::{BuildingType, SpriteIndex};
use crate::components::{
    Aura, Clickable, DynamicSprite, EntityContainer, Position, Range, RenderVariant, Renderable,
    Timestamp, World, Z_BUILDINGS,
};
use crate::entity::Entity;
use crate::errors::{dev_error, PadlError, PadlErrorCode, PadlResult};
use crate::tiling::{spec_in_range, spec_tile_area, TileIndex, TileState, TileType, Town};
use crate::timestamp::{parse_timestamp, spec_timestamp};

verus! {

/// How a building of kind `bt` created at `created` is drawn: trees age
/// visibly, every other kind shows its static image.
pub open spec fn spec_building_render(bt: BuildingType, created: Timestamp) -> RenderVariant {
    if bt is Tree {
        RenderVariant::DynImgWithImgBackground(DynamicSprite { created }, SpriteIndex::Grass)
    } else {
        RenderVariant::ImgWithImgBackground(bt.spec_sprite(), SpriteIndex::Grass)
    }
}

/// A passive emitter: power and range, but no attack cadence.
pub open spec fn spec_has_aura(ap: Option<i64>, attacks_per_cycle: Option<i64>, range: Option<u32>)
    -> bool {
    attacks_per_cycle is None && ap is Some && range is Some
}

/// `post` is `pre` with entity `e` given its facets: position, appearance
/// and clickability always; a range where one is given; an aura over the
/// lane tiles `lanes` where `spec_has_aura` holds; a container bounded by
/// `capacity` where one is given. The other storages are unchanged.
pub open spec fn facets_assembled(
    pre: World,
    post: World,
    e: Entity,
    position: Position,
    kind: RenderVariant,
    ap: Option<i64>,
    attacks_per_cycle: Option<i64>,
    range: Option<u32>,
    lanes: Set<TileIndex>,
    capacity: Option<usize>,
) -> bool {
    &&& post.positions@ == pre.positions@.insert(e.id, position)
    &&& post.renderables@ == pre.renderables@.insert(e.id, Renderable { kind })
    &&& post.clickables@ == pre.clickables@.insert(e.id, Clickable {  })
    &&& post.ranges@ == match range {
        Some(r) => pre.ranges@.insert(e.id, Range { range: r }),
        None => pre.ranges@,
    }
    &&& if spec_has_aura(ap, attacks_per_cycle, range) {
        &&& post.auras@ == pre.auras@.insert(e.id, post.auras@[e.id])
        &&& post.auras@[e.id].range == range->0
        &&& post.auras@[e.id].effect == ap->0
        &&& forall|t: TileIndex| #[trigger]
            post.auras@[e.id].affected_tiles@.contains(t) <==> lanes.contains(t)
    } else {
        post.auras@ == pre.auras@
    }
    &&& match capacity {
        Some(cap) => {
            &&& post.containers@ == pre.containers@.insert(e.id, post.containers@[e.id])
            &&& post.containers@[e.id].name@ == "Working"@
            &&& post.containers@[e.id].capacity == cap
            &&& post.containers@[e.id].children@.len() == 0
        },
        None => post.containers@ == pre.containers@,
    }
    &&& post.movings@ == pre.movings@
    &&& post.visitors@ == pre.visitors@
    &&& post.net_objs@ == pre.net_objs@
}

/// The lane tiles of `town` within `range` of `c`.
pub open spec fn lanes_in_range(town: Town, c: TileIndex, range: u32) -> Set<TileIndex> {
    Set::new(|t: TileIndex| spec_in_range(c, t, range) && town.spec_walkable(t))
}

impl Aura {
    /// An aura of `effect` over the lane tiles of `town` within `range` of `tile`.
    pub fn new(range: u32, effect: i64, tile: TileIndex, town: &Town) -> (r: Aura)
        requires
            town.wf(),
        ensures
            r.range == range,
            r.effect == effect,
            forall|t: TileIndex| #[trigger]
                r.affected_tiles@.contains(t) <==> lanes_in_range(*town, tile, range).contains(t),
    {
        let affected_tiles = town.lane_in_range(tile, range);
        assert forall|t: TileIndex| #[trigger]
            affected_tiles@.contains(t) <==> lanes_in_range(*town, tile, range).contains(t) by {
            assert(affected_tiles@.contains(t) <==> (spec_in_range(tile, t, range)
                && town.spec_walkable(t)));
        }
        Aura { range, effect, affected_tiles }
    }
}

impl EntityContainer {
    /// An empty container called `name` that holds up to `capacity` entities.
    pub fn new(name: &str, capacity: usize) -> (r: EntityContainer)
        ensures
            r.name@ == name@,
            r.capacity == capacity,
            r.children@.len() == 0,
    {
        EntityContainer { name: name.to_owned(), capacity, children: Vec::new() }
    }
}

impl Town {
    /// Places a new building of kind `bt`, with the statistics that its kind has.
    pub fn insert_new_bulding(
        &mut self,
        world: &mut World,
        pos: TileIndex,
        bt: BuildingType,
        now: Timestamp,
    ) -> (r: PadlResult<Entity>)
        requires
            old(self).wf(),
            old(world).wf(),
        ensures
            final(self).wf(),
            final(world).wf(),
            entities_known(*old(self), *old(world)) ==> entities_known(*final(self), *final(world)),
            entities_known(*old(self), *old(world)) && r is Ok ==> forall|d: TileIndex| #[trigger]
                old(self).spec_state(d) is Some ==> old(self).spec_state(d)->0.entity != r->Ok_0,
            assembled(
                *old(self),
                *final(self),
                *old(world),
                *final(world),
                r,
                pos,
                bt,
                bt.spec_attack_power(),
                bt.spec_attacks_per_cycle(),
                bt.spec_range(),
                now,
            ),
    {
        self.insert_bulding(
            world,
            pos,
            bt,
            bt.attack_power(),
            bt.attacks_per_cycle(),
            bt.range(),
            now,
        )
    }

    /// Assembles a building of kind `bt` on tile `tile_index` and registers
    /// it with the town. Fails, changing nothing, where the tile is not
    /// buildable or no entity can be made.
    pub fn insert_bulding(
        &mut self,
        world: &mut World,
        tile_index: TileIndex,
        bt: BuildingType,
        ap: Option<i64>,
        attacks_per_cycle: Option<i64>,
        range: Option<u32>,
        created: Timestamp,
    ) -> (r: PadlResult<Entity>)
        requires
            old(self).wf(),
            old(world).wf(),
        ensures
            final(self).wf(),
            final(world).wf(),
            entities_known(*old(self), *old(world)) ==> entities_known(*final(self), *final(world)),
            entities_known(*old(self), *old(world)) && r is Ok ==> forall|d: TileIndex| #[trigger]
                old(self).spec_state(d) is Some ==> old(self).spec_state(d)->0.entity != r->Ok_0,
            assembled(
                *old(self),
                *final(self),
                *old(world),
                *final(world),
                r,
                tile_index,
                bt,
                ap,
                attacks_per_cycle,
                range,
                created,
            ),
    {
        if !self.is_buildable(tile_index) {
            return Err(PadlError::dev_err(PadlErrorCode::NotBuildable));
        }
        let e = match world.create_entity() {
            Some(e) => e,
            None => {
                return Err(PadlError::dev_err(PadlErrorCode::EntityLimit));
            },
        };
        proof {
            self.lemma_area_fits(tile_index);
        }
        let area = self.tile_area(tile_index);
        world.positions.insert(e, Position { area, z: Z_BUILDINGS });
        let kind = match bt {
            BuildingType::Tree => {
                let dynsp = DynamicSprite::new_tree(created);
                RenderVariant::DynImgWithImgBackground(dynsp, SpriteIndex::Grass)
            },
            _ => RenderVariant::ImgWithImgBackground(bt.sprite(), SpriteIndex::Grass),
        };
        world.renderables.insert(e, Renderable { kind });
        world.clickables.insert(e, Clickable {  });
        if let Some(r) = range {
            world.ranges.insert(e, Range { range: r });
        }
        // No attacks per cycle, but an attack power: an aura
        if attacks_per_cycle.is_none() && ap.is_some() {
            if let Some(r) = range {
                let aura = Aura::new(r, ap.unwrap(), tile_index, self);
                world.auras.insert(e, aura);
            }
        }
        if bt.is_holding_facility() {
            world.containers.insert(e, EntityContainer::new("Working", bt.capacity()));
        }
        proof {
            reveal_strlit("Working");
        }
        let ghost pre = *self;
        self.place_building(tile_index, bt, e);
        proof {
            if entities_known(pre, *old(world)) {
                assert forall|d: TileIndex| #[trigger] self.spec_state(d) is Some implies self.spec_state(
                    d,
                )->0.entity.id < world.next_id by {
                    if d != tile_index {
                        assert(self.spec_tile(d) == pre.spec_tile(d));
                    }
                }
            }
        }
        Ok(e)
    }
}

/// Every building recorded in the town is an entity that the world has made.
pub open spec fn entities_known(town: Town, world: World) -> bool {
    forall|c: TileIndex| #[trigger]
        town.spec_state(c) is Some ==> town.spec_state(c)->0.entity.id < world.next_id
}

/// The two worlds hold the same entities and facets.
pub open spec fn world_unchanged(a: World, b: World) -> bool {
    &&& b.next_id == a.next_id
    &&& b.positions@ == a.positions@
    &&& b.renderables@ == a.renderables@
    &&& b.clickables@ == a.clickables@
    &&& b.ranges@ == a.ranges@
    &&& b.auras@ == a.auras@
    &&& b.containers@ == a.containers@
    &&& b.movings@ == a.movings@
    &&& b.visitors@ == a.visitors@
    &&& b.net_objs@ == a.net_objs@
}

/// The outcome of assembling a building on `c`: where `c` is not buildable
/// the error `NotBuildable`, where the world has no identifier left
/// `EntityLimit`, town and world unchanged; else a new entity with the
/// facets of `facets_assembled`, recorded at `c` in the town.
pub open spec fn assembled(
    town: Town,
    town2: Town,
    world: World,
    world2: World,
    r: PadlResult<Entity>,
    c: TileIndex,
    bt: BuildingType,
    ap: Option<i64>,
    attacks_per_cycle: Option<i64>,
    range: Option<u32>,
    created: Timestamp,
) -> bool {
    if !town.spec_buildable(c) {
        &&& r == Err::<Entity, PadlError>(dev_error(PadlErrorCode::NotBuildable))
        &&& town2 == town
        &&& world_unchanged(world, world2)
    } else if world.next_id == u32::MAX {
        &&& r == Err::<Entity, PadlError>(dev_error(PadlErrorCode::EntityLimit))
        &&& town2 == town
        &&& world_unchanged(world, world2)
    } else {
        &&& r is Ok
        &&& r->Ok_0.id == world.next_id
        &&& world2.next_id == world.next_id + 1
        &&& facets_assembled(
            world,
            world2,
            r->Ok_0,
            Position {
                area: spec_tile_area(c, town.spec_resolution().unit_length),
                z: Z_BUILDINGS,
            },
            spec_building_render(bt, created),
            ap,
            attacks_per_cycle,
            range,
            lanes_in_range(town, c, range->0),
            if bt.spec_is_holding_facility() {
                Some(bt.spec_capacity())
            } else {
                None
            },
        )
        &&& town2.spec_width() == town.spec_width()
        &&& town2.spec_height() == town.spec_height()
        &&& town2.spec_resolution() == town.spec_resolution()
        &&& town2.spec_tile(c) == Some(TileType::Building(r->Ok_0))
        &&& town2.spec_state(c) == Some(
            TileState { entity: r->Ok_0, building_type: bt, transient: false },
        )
        &&& forall|d: TileIndex|
            d != c ==> #[trigger] town2.spec_tile(d) == town.spec_tile(d) && town2.spec_state(d)
                == town.spec_state(d)
    }
}

/// Assembly gives a fresh entity a range facet exactly where a range is
/// given, and then that range.
pub proof fn lemma_range_facet(
    pre: World,
    post: World,
    e: Entity,
    position: Position,
    kind: RenderVariant,
    ap: Option<i64>,
    attacks_per_cycle: Option<i64>,
    range: Option<u32>,
    lanes: Set<TileIndex>,
    capacity: Option<usize>,
)
    requires
        pre.wf(),
        e.id == pre.next_id,
        facets_assembled(pre, post, e, position, kind, ap, attacks_per_cycle, range, lanes, capacity),
    ensures
        post.ranges@.contains_key(e.id) <==> range is Some,
        range is Some ==> post.ranges@[e.id] == (Range { range: range->0 }),
{
    if pre.ranges@.contains_key(e.id) {
        assert(e.id < pre.next_id);
    }
}

/// Assembly gives a fresh entity an aura exactly where there is no attack
/// cadence, an attack power and a range.
pub proof fn lemma_aura_presence(
    pre: World,
    post: World,
    e: Entity,
    position: Position,
    kind: RenderVariant,
    ap: Option<i64>,
    attacks_per_cycle: Option<i64>,
    range: Option<u32>,
    lanes: Set<TileIndex>,
    capacity: Option<usize>,
)
    requires
        pre.wf(),
        e.id == pre.next_id,
        facets_assembled(pre, post, e, position, kind, ap, attacks_per_cycle, range, lanes, capacity),
    ensures
        post.auras@.contains_key(e.id) <==> (attacks_per_cycle is None && ap is Some
            && range is Some),
{
    if pre.auras@.contains_key(e.id) {
        assert(e.id < pre.next_id);
    }
}

/// Where a building is assembled on a buildable tile, it gets a range facet
/// exactly where a range is given, and then that range; assembly fails only
/// in a world without identifiers left.
pub proof fn lemma_assembly_range(
    town: Town,
    town2: Town,
    world: World,
    world2: World,
    r: PadlResult<Entity>,
    c: TileIndex,
    bt: BuildingType,
    ap: Option<i64>,
    attacks_per_cycle: Option<i64>,
    range: Option<u32>,
    created: Timestamp,
)
    requires
        world.wf(),
        town.spec_buildable(c),
        assembled(town, town2, world, world2, r, c, bt, ap, attacks_per_cycle, range, created),
    ensures
        match r {
            Ok(e) => {
                &&& world2.ranges@.contains_key(e.id) <==> range is Some
                &&& range is Some ==> world2.ranges@[e.id] == (Range { range: range->0 })
            },
            Err(err) => err == dev_error(PadlErrorCode::EntityLimit) && world.next_id == u32::MAX,
        },
{
    if r is Ok {
        if world.ranges@.contains_key(r->Ok_0.id) {
            assert(r->Ok_0.id < world.next_id);
        }
    }
}

/// Where a building is assembled on a buildable tile, it gets an aura
/// exactly where there is no attack cadence, an attack power and a range;
/// assembly fails only in a world without identifiers left.
pub proof fn lemma_assembly_aura(
    town: Town,
    town2: Town,
    world: World,
    world2: World,
    r: PadlResult<Entity>,
    c: TileIndex,
    bt: BuildingType,
    ap: Option<i64>,
    attacks_per_cycle: Option<i64>,
    range: Option<u32>,
    created: Timestamp,
)
    requires
        world.wf(),
        town.spec_buildable(c),
        assembled(town, town2, world, world2, r, c, bt, ap, attacks_per_cycle, range, created),
    ensures
        match r {
            Ok(e) => world2.auras@.contains_key(e.id) <==> (attacks_per_cycle is None && ap is Some
                && range is Some),
            Err(err) => err == dev_error(PadlErrorCode::EntityLimit) && world.next_id == u32::MAX,
        },
{
    if r is Ok {
        if world.auras@.contains_key(r->Ok_0.id) {
            assert(r->Ok_0.id < world.next_id);
        }
    }
}

/// The two maps agree at key `k`.
pub open spec fn same_at<T>(a: Map<u32, T>, b: Map<u32, T>, k: u32) -> bool {
    &&& a.contains_key(k) == b.contains_key(k)
    &&& a.contains_key(k) ==> a[k] == b[k]
}

/// The storages that assembly fills agree in `pre` and `post` but at `id`.
pub open spec fn only_touches(pre: World, post: World, id: u32) -> bool {
    forall|k: u32|
        k != id ==> {
            &&& #[trigger] same_at(pre.positions@, post.positions@, k)
            &&& same_at(pre.renderables@, post.renderables@, k)
            &&& same_at(pre.clickables@, post.clickables@, k)
            &&& same_at(pre.ranges@, post.ranges@, k)
            &&& same_at(pre.auras@, post.auras@, k)
            &&& same_at(pre.containers@, post.containers@, k)
        }
}

/// Entity `e` of `w` carries the facets that assembly gives.
pub open spec fn carries_facets(
    w: World,
    e: Entity,
    position: Position,
    kind: RenderVariant,
    ap: Option<i64>,
    attacks_per_cycle: Option<i64>,
    range: Option<u32>,
    capacity: Option<usize>,
) -> bool {
    &&& w.positions@.contains_key(e.id) && w.positions@[e.id] == position
    &&& w.renderables@.contains_key(e.id) && w.renderables@[e.id] == (Renderable { kind })
    &&& w.clickables@.contains_key(e.id)
    &&& match range {
        Some(r) => w.ranges@.contains_key(e.id) && w.ranges@[e.id] == (Range { range: r }),
        None => !w.ranges@.contains_key(e.id),
    }
    &&& w.auras@.contains_key(e.id) == spec_has_aura(ap, attacks_per_cycle, range)
    &&& spec_has_aura(ap, attacks_per_cycle, range) ==> w.auras@[e.id].range == range->0
        && w.auras@[e.id].effect == ap->0
    &&& match capacity {
        Some(cap) => w.containers@.contains_key(e.id) && w.containers@[e.id].capacity == cap,
        None => !w.containers@.contains_key(e.id),
    }
}

/// A fresh entity that assembly fills carries its facets, and nothing else changes.
pub proof fn lemma_assembled_carries(
    pre: World,
    post: World,
    e: Entity,
    position: Position,
    kind: RenderVariant,
    ap: Option<i64>,
    attacks_per_cycle: Option<i64>,
    range: Option<u32>,
    lanes: Set<TileIndex>,
    capacity: Option<usize>,
)
    requires
        pre.wf(),
        e.id == pre.next_id,
        facets_assembled(pre, post, e, position, kind, ap, attacks_per_cycle, range, lanes, capacity),
    ensures
        carries_facets(post, e, position, kind, ap, attacks_per_cycle, range, capacity),
        only_touches(pre, post, e.id),
{
    lemma_range_facet(pre, post, e, position, kind, ap, attacks_per_cycle, range, lanes, capacity);
    lemma_aura_presence(pre, post, e, position, kind, ap, attacks_per_cycle, range, lanes, capacity);
    if capacity is None && pre.containers@.contains_key(e.id) {
        assert(e.id < pre.next_id);
    }
}

/// Facets that an entity carries stay while assembly fills another.
pub proof fn lemma_carries_kept(
    pre: World,
    post: World,
    id: u32,
    e: Entity,
    position: Position,
    kind: RenderVariant,
    ap: Option<i64>,
    attacks_per_cycle: Option<i64>,
    range: Option<u32>,
    capacity: Option<usize>,
)
    requires
        carries_facets(pre, e, position, kind, ap, attacks_per_cycle, range, capacity),
        only_touches(pre, post, id),
        e.id != id,
    ensures
        carries_facets(post, e, position, kind, ap, attacks_per_cycle, range, capacity),
{
    assert(same_at(pre.positions@, post.positions@, e.id));
}

/// The kinds of building that a record may name.
#[allow(non_camel_case_types)]
#[derive(Clone, Debug, PartialEq, Eq)]
pub enum WireBuildingType {
    RED_FLOWERS,
    BLUE_FLOWERS,
    TREE,
    BUNDLING_STATION,
    /// A kind that this client does not know.
    Other(String),
}

/// A building as the server describes it.
#[derive(Clone, Debug, PartialEq, Eq)]
pub struct BuildingRecord {
    pub x: i64,
    pub y: i64,
    pub building_type: WireBuildingType,
    pub attack_power: Option<i64>,
    pub attacks_per_cycle: Option<i64>,
    /// In thousandths of a tile edge.
    pub building_range: Option<u32>,
    /// Microseconds since the epoch, in decimal.
    pub creation: String,
}

pub open spec fn spec_decode_building_type(w: WireBuildingType) -> Option<BuildingType> {
    match w {
        WireBuildingType::RED_FLOWERS => Some(BuildingType::RedFlowers),
        WireBuildingType::BLUE_FLOWERS => Some(BuildingType::BlueFlowers),
        WireBuildingType::TREE => Some(BuildingType::Tree),
        WireBuildingType::BUNDLING_STATION => Some(BuildingType::BundlingStation),
        WireBuildingType::Other(_) => None,
    }
}

/// Decodes the kind of a record; an unknown kind is a developer error.
pub fn decode_building_type(w: &WireBuildingType) -> (r: PadlResult<BuildingType>)
    ensures
        r == match spec_decode_building_type(*w) {
            Some(bt) => Ok(bt),
            None => Err(dev_error(PadlErrorCode::UnexpectedBuildingType)),
        },
{
    match w {
        WireBuildingType::RED_FLOWERS => Ok(BuildingType::RedFlowers),
        WireBuildingType::BLUE_FLOWERS => Ok(BuildingType::BlueFlowers),
        WireBuildingType::TREE => Ok(BuildingType::Tree),
        WireBuildingType::BUNDLING_STATION => Ok(BuildingType::BundlingStation),
        WireBuildingType::Other(_) => Err(PadlError::dev_err(PadlErrorCode::UnexpectedBuildingType)),
    }
}

/// The tile that a pair of coordinates names; none where one is negative
/// or too large for an index.
pub open spec fn spec_record_tile(x: i64, y: i64) -> Option<TileIndex> {
    if 0 <= x <= usize::MAX && 0 <= y <= usize::MAX {
        Some((x as usize, y as usize))
    } else {
        None
    }
}

pub fn record_tile(x: i64, y: i64) -> (r: Option<TileIndex>)
    ensures
        r == spec_record_tile(x, y),
{
    if x >= 0 && y >= 0 && x as u64 <= usize::MAX as u64 && y as u64 <= usize::MAX as u64 {
        Some((x as usize, y as usize))
    } else {
        None
    }
}

impl BuildingRecord {
    /// The creation time that matters for the render of kind `bt`: only a
    /// tree's, which ages.
    pub open spec fn spec_created(&self, bt: BuildingType) -> Option<Timestamp> {
        if bt is Tree {
            spec_timestamp(vstd::utf8::encode_utf8(self.creation@))
        } else {
            Some(0)
        }
    }

    /// The outcome of importing this record into `town` and `world`.
    pub open spec fn imported(
        &self,
        town: Town,
        town2: Town,
        world: World,
        world2: World,
        r: PadlResult<Entity>,
    ) -> bool {
        match spec_decode_building_type(self.building_type) {
            None => r == Err::<Entity, PadlError>(
                dev_error(PadlErrorCode::UnexpectedBuildingType),
            ) && town2 == town && world_unchanged(world, world2),
            Some(bt) => match spec_record_tile(self.x, self.y) {
                None => r == Err::<Entity, PadlError>(dev_error(PadlErrorCode::NotBuildable))
                    && town2 == town && world_unchanged(world, world2),
                Some(c) => match self.spec_created(bt) {
                    None => r == Err::<Entity, PadlError>(
                        dev_error(PadlErrorCode::InvalidTimestamp),
                    ) && town2 == town && world_unchanged(world, world2),
                    Some(created) => assembled(
                        town,
                        town2,
                        world,
                        world2,
                        r,
                        c,
                        bt,
                        self.attack_power,
                        self.attacks_per_cycle,
                        self.building_range,
                        created,
                    ),
                },
            },
        }
    }

    /// The record names a known kind.
    pub open spec fn spec_known_kind(&self) -> bool {
        spec_decode_building_type(self.building_type) is Some
    }

    /// The record names a known kind and, where its kind ages, a readable
    /// creation time.
    pub open spec fn spec_decodes(&self) -> bool {
        &&& self.spec_known_kind()
        &&& self.spec_created(spec_decode_building_type(self.building_type)->0) is Some
    }

    /// Whether the record names a known kind; an import of a record that
    /// does not is a broken contract with the server.
    pub fn has_known_kind(&self) -> (r: bool)
        ensures
            r == self.spec_known_kind(),
    {
        decode_building_type(&self.building_type).is_ok()
    }

    /// Whether the record can be decoded: a known kind, and a readable
    /// creation time where its kind ages.
    pub fn decodes(&self) -> (r: bool)
        ensures
            r == self.spec_decodes(),
    {
        match decode_building_type(&self.building_type) {
            Ok(bt) => !bt.is_tree() || parse_timestamp(self.creation.as_str()).is_some(),
            Err(_) => false,
        }
    }

    /// Turns the record into a building of the town, with the statistics
    /// that the server gives.
    pub fn create_entity(&self, town: &mut Town, world: &mut World) -> (r: PadlResult<Entity>)
        requires
            old(town).wf(),
            old(world).wf(),
            self.spec_decodes(),
        ensures
            final(town).wf(),
            final(world).wf(),
entities_known(*old(town), *old(world)) ==> entities_known(*final(town), *final(world)),
            self.imported(*old(town), *final(town), *old(world), *final(world), r),
    {
        let bt = match decode_building_type(&self.building_type) {
            Ok(bt) => bt,
            Err(e) => {
                return Err(e);
            },
        };
        let coordinates = match record_tile(self.x, self.y) {
            Some(c) => c,
            None => {
                return Err(PadlError::dev_err(PadlErrorCode::NotBuildable));
            },
        };
        let created: Timestamp = if bt.is_tree() {
            match parse_timestamp(self.creation.as_str()) {
                Some(t) => t,
                None => {
                    return Err(PadlError::dev_err(PadlErrorCode::InvalidTimestamp));
                },
            }
        } else {
            0
        };
        town.insert_bulding(
            world,
            coordinates,
            bt,
            self.attack_power,
            self.attacks_per_cycle,
            self.building_range,
            created,
        )
    }
}

/// Imports the records in order; stops at the first that fails.
pub fn create_entities(records: &Vec<BuildingRecord>, town: &mut Town, world: &mut World) -> (r:
    PadlResult<Vec<Entity>>)
    requires
        old(town).wf(),
        old(world).wf(),
        forall|i: int| 0 <= i < records@.len() ==> (#[trigger] records@[i]).spec_decodes(),
    ensures
        final(town).wf(),
        final(world).wf(),
        entities_known(*old(town), *old(world)) ==> entities_known(*final(town), *final(world)),
        match r {
            Ok(v) => {
                &&& v@.len() == records@.len()
                &&& final(world).next_id == old(world).next_id + records@.len()
                &&& forall|i: int|
                    0 <= i < v@.len() ==> {
                        &&& (#[trigger] v@[i]).id == old(world).next_id + i
                        &&& records@[i].imported_facets(
                            *final(world),
                            v@[i],
                            old(town).spec_resolution().unit_length,
                        )
                        &&& final(town).spec_state(
                            spec_record_tile(records@[i].x, records@[i].y)->0,
                        ) == Some(
                            TileState {
                                entity: v@[i],
                                building_type: spec_decode_building_type(
                                    records@[i].building_type,
                                )->0,
                                transient: false,
                            },
                        )
                    }
            },
            Err(e) => e.spec_is_fatal() && !all_importable(records@, *old(town), *old(world)),
        },
{
    let mut entities: Vec<Entity> = Vec::new();
    let mut i: usize = 0;
    while i < records.len()
        invariant
            i <= records@.len(),
            town.wf(),
            world.wf(),
            entities@.len() == i,
            world.next_id == old(world).next_id + i,
            forall|j: int| 0 <= j < records@.len() ==> (#[trigger] records@[j]).spec_decodes(),
            entities_known(*old(town), *old(world)) ==> entities_known(*town, *world),
            town.spec_resolution() == old(town).spec_resolution(),
            forall|j: int|
                0 <= j < i ==> #[trigger] records@[j].imported_facets(
                    *world,
                    entities@[j],
                    old(town).spec_resolution().unit_length,
                ),
            all_importable(records@, *old(town), *old(world)) ==> forall|j: int|
                i <= j < records@.len() ==> #[trigger] town.spec_tile(
                    spec_record_tile(records@[j].x, records@[j].y)->0,
                ) == old(town).spec_tile(spec_record_tile(records@[j].x, records@[j].y)->0),
            forall|j: int|
                0 <= j < i ==> {
                    &&& (#[trigger] entities@[j]).id == old(world).next_id + j
                    &&& town.spec_state(spec_record_tile(records@[j].x, records@[j].y)->0) == Some(
                        TileState {
                            entity: entities@[j],
                            building_type: spec_decode_building_type(records@[j].building_type)->0,
                            transient: false,
                        },
                    )
                },
        decreases records@.len() - i,
    {
        let ghost pre_town = *town;
        let ghost pre_world = *world;
        let ghost ci = spec_record_tile(records@[i as int].x, records@[i as int].y)->0;
        assert(records@[i as int].spec_decodes());
        let res = records[i].create_entity(town, world);
        match res {
            Ok(e) => {
                assert(records@[i as int].imported_ok());
                assert(e.id == pre_world.next_id);
                proof {
                    records@[i as int].lemma_imported_carries(pre_town, *town, pre_world, *world, res);
                    assert forall|j: int| 0 <= j < i implies #[trigger] records@[j].imported_facets(
                        *world,
                        entities@[j],
                        old(town).spec_resolution().unit_length,
                    ) by {
                        records@[j].lemma_imported_kept(
                            pre_world,
                            *world,
                            e.id,
                            entities@[j],
                            old(town).spec_resolution().unit_length,
                        );
                    }
                }
                assert(town.spec_state(ci) == Some(
                    TileState {
                        entity: e,
                        building_type: spec_decode_building_type(records@[i as int].building_type)->0,
                        transient: false,
                    },
                ));
                entities.push(e);
            },
            Err(err) => {
                proof {
                    if all_importable(records@, *old(town), *old(world)) {
                        assert(records@[i as int].imported_ok());
                        assert(pre_town.spec_buildable(ci));
                    }
                }
                return Err(err);
            },
        }
        assert forall|j: int| 0 <= j < i + 1 implies {
            &&& (#[trigger] entities@[j]).id == old(world).next_id + j
            &&& town.spec_state(spec_record_tile(records@[j].x, records@[j].y)->0) == Some(
                TileState {
                    entity: entities@[j],
                    building_type: spec_decode_building_type(records@[j].building_type)->0,
                    transient: false,
                },
            )
        } by {
            if j < i {
                let cj = spec_record_tile(records@[j].x, records@[j].y)->0;
                if cj == ci {
                    assert(pre_town.spec_state(cj) is Some);
                    crate::tiling::lemma_occupied_not_buildable(&pre_town, cj, entities@[j]);
                } else {
                    assert(town.spec_tile(cj) == pre_town.spec_tile(cj));
                }
            }
        }
        proof {
            if all_importable(records@, *old(town), *old(world)) {
                assert forall|j: int| i + 1 <= j < records@.len() implies #[trigger] town.spec_tile(
                    spec_record_tile(records@[j].x, records@[j].y)->0,
                ) == old(town).spec_tile(spec_record_tile(records@[j].x, records@[j].y)->0) by {
                    let cj = spec_record_tile(records@[j].x, records@[j].y)->0;
                    assert(pre_town.spec_tile(cj) == old(town).spec_tile(cj));
                    assert(spec_record_tile(records@[i as int].x, records@[i as int].y)
                        != spec_record_tile(records@[j].x, records@[j].y));
                }
            }
        }
        i = i + 1;
    }
    Ok(entities)
}

/// Every record can be imported: each is `imported_ok`, on a buildable tile
/// of `town` of its own, and the world has identifiers for all.
pub open spec fn all_importable(records: Seq<BuildingRecord>, town: Town, world: World) -> bool {
    &&& world.next_id + records.len() <= u32::MAX
    &&& forall|i: int| 0 <= i < records.len() ==> (#[trigger] records[i]).imported_ok()
    &&& forall|i: int|
        0 <= i < records.len() ==> town.spec_buildable(
            spec_record_tile(#[trigger] records[i].x, records[i].y)->0,
        )
    &&& forall|i: int, j: int|
        0 <= i < j < records.len() ==> spec_record_tile(#[trigger] records[i].x, records[i].y)
            != spec_record_tile(#[trigger] records[j].x, records[j].y)
}

impl BuildingRecord {
    /// Entity `e` of `w` carries the facets that importing this record gives,
    /// at tile edge length `ul`.
    pub open spec fn imported_facets(&self, w: World, e: Entity, ul: u32) -> bool {
        let bt = spec_decode_building_type(self.building_type)->0;
        let c = spec_record_tile(self.x, self.y)->0;
        carries_facets(
            w,
            e,
            Position { area: spec_tile_area(c, ul), z: Z_BUILDINGS },
            spec_building_render(bt, self.spec_created(bt)->0),
            self.attack_power,
            self.attacks_per_cycle,
            self.building_range,
            if bt.spec_is_holding_facility() {
                Some(bt.spec_capacity())
            } else {
                None
            },
        )
    }

    proof fn lemma_imported_carries(
        &self,
        town: Town,
        town2: Town,
        world: World,
        world2: World,
        r: PadlResult<Entity>,
    )
        requires
            world.wf(),
            r is Ok,
            self.imported(town, town2, world, world2, r),
        ensures
            self.imported_facets(world2, r->Ok_0, town.spec_resolution().unit_length),
            only_touches(world, world2, r->Ok_0.id),
    {
        let bt = spec_decode_building_type(self.building_type)->0;
        let c = spec_record_tile(self.x, self.y)->0;
        lemma_assembled_carries(
            world,
            world2,
            r->Ok_0,
            Position { area: spec_tile_area(c, town.spec_resolution().unit_length), z: Z_BUILDINGS },
            spec_building_render(bt, self.spec_created(bt)->0),
            self.attack_power,
            self.attacks_per_cycle,
            self.building_range,
            lanes_in_range(town, c, self.building_range->0),
            if bt.spec_is_holding_facility() {
                Some(bt.spec_capacity())
            } else {
                None
            },
        );
    }

    proof fn lemma_imported_kept(&self, pre: World, post: World, id: u32, e: Entity, ul: u32)
        requires
            self.imported_facets(pre, e, ul),
            only_touches(pre, post, id),
            e.id != id,
        ensures
            self.imported_facets(post, e, ul),
    {
        let bt = spec_decode_building_type(self.building_type)->0;
        let c = spec_record_tile(self.x, self.y)->0;
        lemma_carries_kept(
            pre,
            post,
            id,
            e,
            Position { area: spec_tile_area(c, ul), z: Z_BUILDINGS },
            spec_building_render(bt, self.spec_created(bt)->0),
            self.attack_power,
            self.attacks_per_cycle,
            self.building_range,
            if bt.spec_is_holding_facility() {
                Some(bt.spec_capacity())
            } else {
                None
            },
        );
    }

    /// The record has a known kind, coordinates of an index, and a creation
    /// time where its kind needs one.
    pub open spec fn imported_ok(&self) -> bool {
        &&& spec_decode_building_type(self.building_type) is Some
        &&& spec_record_tile(self.x, self.y) is Some
        &&& self.spec_created(spec_decode_building_type(self.building_type)->0) is Some
    }
}

} // verus!
