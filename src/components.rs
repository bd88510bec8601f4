use vstd::prelude::*;
use crate::attributes::SpriteIndex;
use crate::entity::Entity;
use crate::tiling::{Rectangle, TileIndex};

verus! {

/// Microseconds since the epoch.
pub type Timestamp = i64;

/// Depth layer of buildings.
pub const Z_BUILDINGS: i32 = 20;

/// Depth layer of units, above buildings.
pub const Z_UNITS: i32 = 40;

/// Where an entity is drawn: its pixel area and depth layer.
#[derive(Clone, Copy, Debug, PartialEq, Eq, Structural)]
pub struct Position {
    pub area: Rectangle,
    pub z: i32,
}

/// A sprite that changes as its entity ages.
#[derive(Clone, Copy, Debug, PartialEq, Eq, Structural)]
pub struct DynamicSprite {
    pub created: Timestamp,
}

impl DynamicSprite {
    pub fn new_tree(created: Timestamp) -> (r: DynamicSprite)
        ensures
            r.created == created,
    {
        DynamicSprite { created }
    }
}

/// How an entity is drawn: a static image, or one that ages, on a background.
#[derive(Clone, Copy, Debug, PartialEq, Eq, Structural)]
pub enum RenderVariant {
    ImgWithImgBackground(SpriteIndex, SpriteIndex),
    DynImgWithImgBackground(DynamicSprite, SpriteIndex),
}

#[derive(Clone, Copy, Debug, PartialEq, Eq, Structural)]
pub struct Renderable {
    pub kind: RenderVariant,
}

/// Marks an entity that reacts to clicks.
#[derive(Clone, Copy, Debug, PartialEq, Eq, Structural)]
pub struct Clickable {}

/// An entity's effective radius, in thousandths of a tile edge.
#[derive(Clone, Copy, Debug, PartialEq, Eq, Structural)]
pub struct Range {
    pub range: u32,
}

/// A passive, periodic influence on the lane tiles within range.
#[derive(Clone, Debug, PartialEq, Eq)]
pub struct Aura {
    pub range: u32,
    pub effect: i64,
    pub affected_tiles: Vec<TileIndex>,
}

/// A named, bounded holding facility.
#[derive(Clone, Debug, PartialEq, Eq)]
pub struct EntityContainer {
    pub name: String,
    pub capacity: usize,
    pub children: Vec<Entity>,
}

/// Movement along the lane that started at `start_ts` from the entity's
/// position, at `momentum` pixels per second.
#[derive(Clone, Copy, Debug, PartialEq, Eq, Structural)]
pub struct Moving {
    pub start_ts: Timestamp,
    pub momentum: u32,
}

/// A visitor walking through the town.
#[derive(Clone, Copy, Debug, PartialEq, Eq, Structural)]
pub struct Visitor {
    /// A hurried visitor does not stop, and is not released either.
    pub hurried: bool,
    pub speed: u32,
}

/// The identity of an entity on the server.
#[derive(Clone, Copy, Debug, PartialEq, Eq, Structural)]
pub struct NetObj {
    pub id: i64,
}

/// The facets of one kind, keyed by entity.
pub struct Storage<T> {
    slots: Vec<Option<T>>,
}

impl<T> View for Storage<T> {
    type V = Map<u32, T>;

    closed spec fn view(&self) -> Map<u32, T> {
        Map::new(
            |k: u32| (k as int) < self.slots@.len() && self.slots@[k as int] is Some,
            |k: u32| self.slots@[k as int]->0,
        )
    }
}

impl<T> Storage<T> {
    pub fn new() -> (r: Storage<T>)
        ensures
            r@ == Map::<u32, T>::empty(),
    {
        let r = Storage { slots: Vec::new() };
        assert(r@ =~= Map::<u32, T>::empty());
        r
    }

    pub fn get(&self, e: Entity) -> (r: Option<&T>)
        ensures
            match r {
                Some(v) => self@.contains_key(e.id) && self@[e.id] == *v,
                None => !self@.contains_key(e.id),
            },
    {
        let i = e.id as usize;
        if i < self.slots.len() {
            self.slots[i].as_ref()
        } else {
            None
        }
    }

    pub fn contains(&self, e: Entity) -> (r: bool)
        ensures
            r == self@.contains_key(e.id),
    {
        let i = e.id as usize;
        i < self.slots.len() && self.slots[i].is_some()
    }

    /// Gives `e` the facet `v`, in place of the one it had.
    pub fn insert(&mut self, e: Entity, v: T)
        ensures
            final(self)@ == old(self)@.insert(e.id, v),
    {
        let i = e.id as usize;
        while self.slots.len() <= i
            invariant
                self@ == old(self)@,
            decreases i + 1 - self.slots@.len(),
        {
            let ghost pre = self@;
            self.slots.push(None);
            assert(self@ =~= pre);
        }
        let ghost pre = self@;
        self.slots[i] = Some(v);
        assert(self@ =~= pre.insert(e.id, v));
    }

    /// Takes the facet of `e` away.
    pub fn remove(&mut self, e: Entity) -> (r: Option<T>)
        ensures
            final(self)@ == old(self)@.remove(e.id),
            r == (if old(self)@.contains_key(e.id) {
                Some(old(self)@[e.id])
            } else {
                None
            }),
    {
        let i = e.id as usize;
        if i < self.slots.len() {
            let mut taken: Option<T> = None;
            let ghost pre = self@;
            core::mem::swap(&mut taken, &mut self.slots[i]);
            assert(self@ =~= pre.remove(e.id));
            taken
        } else {
            assert(self@ =~= old(self)@.remove(e.id));
            None
        }
    }
}

/// The shared world: the storages of every facet, and the source of new entities.
pub struct World {
    pub next_id: u32,
    pub positions: Storage<Position>,
    pub renderables: Storage<Renderable>,
    pub clickables: Storage<Clickable>,
    pub ranges: Storage<Range>,
    pub auras: Storage<Aura>,
    pub containers: Storage<EntityContainer>,
    pub movings: Storage<Moving>,
    pub visitors: Storage<Visitor>,
    pub net_objs: Storage<NetObj>,
}

/// Every key of the map belongs to an entity made before `next`.
pub open spec fn keys_below<T>(m: Map<u32, T>, next: u32) -> bool {
    forall|k: u32| #[trigger] m.contains_key(k) ==> k < next
}

impl World {
    /// Every facet belongs to an entity that the world has made.
    pub open spec fn wf(&self) -> bool {
        &&& keys_below(self.positions@, self.next_id)
        &&& keys_below(self.renderables@, self.next_id)
        &&& keys_below(self.clickables@, self.next_id)
        &&& keys_below(self.ranges@, self.next_id)
        &&& keys_below(self.auras@, self.next_id)
        &&& keys_below(self.containers@, self.next_id)
        &&& keys_below(self.movings@, self.next_id)
        &&& keys_below(self.visitors@, self.next_id)
        &&& keys_below(self.net_objs@, self.next_id)
    }

    pub fn new() -> (r: World)
        ensures
            r.wf(),
            r.next_id == 0,
            r.positions@.is_empty(),
            r.renderables@.is_empty(),
            r.clickables@.is_empty(),
            r.ranges@.is_empty(),
            r.auras@.is_empty(),
            r.containers@.is_empty(),
            r.movings@.is_empty(),
            r.visitors@.is_empty(),
            r.net_objs@.is_empty(),
    {
        World {
            next_id: 0,
            positions: Storage::new(),
            renderables: Storage::new(),
            clickables: Storage::new(),
            ranges: Storage::new(),
            auras: Storage::new(),
            containers: Storage::new(),
            movings: Storage::new(),
            visitors: Storage::new(),
            net_objs: Storage::new(),
        }
    }

    /// A new entity without facets; none while every identifier is taken.
    pub fn create_entity(&mut self) -> (r: Option<Entity>)
        requires
            old(self).wf(),
        ensures
            final(self).wf(),
            match r {
                Some(e) => e.id == old(self).next_id && final(self).next_id == old(self).next_id
                    + 1,
                None => old(self).next_id == u32::MAX && final(self).next_id == old(self).next_id,
            },
            final(self).positions@ == old(self).positions@,
            final(self).renderables@ == old(self).renderables@,
            final(self).clickables@ == old(self).clickables@,
            final(self).ranges@ == old(self).ranges@,
            final(self).auras@ == old(self).auras@,
            final(self).containers@ == old(self).containers@,
            final(self).movings@ == old(self).movings@,
            final(self).visitors@ == old(self).visitors@,
            final(self).net_objs@ == old(self).net_objs@,
    {
        if self.next_id == u32::MAX {
            None
        } else {
            let e = Entity { id: self.next_id };
            self.next_id = self.next_id + 1;
            Some(e)
        }
    }
}

} // verus!
