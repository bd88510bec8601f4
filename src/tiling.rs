use vstd::prelude::*;
use crate::attributes::{BuildingType, RANGE_UNIT};
use crate::entity::Entity;

verus! {

/// Column and row of a tile in the grid.
pub type TileIndex = (usize, usize);

/// What lies on one tile of the grid.
#[derive(Clone, Copy, Debug, PartialEq, Eq, Structural)]
pub enum TileType {
    Empty,
    /// A fixed walkway: walkable, never buildable.
    Lane,
    /// Occupied by the building that this entity stands for.
    Building(Entity),
}

impl TileType {
    pub open spec fn spec_is_buildable(self) -> bool {
        self is Empty
    }

    pub open spec fn spec_is_walkable(self) -> bool {
        self is Lane
    }

    pub fn is_buildable(&self) -> (r: bool)
        ensures
            r == self.spec_is_buildable(),
    {
        match self {
            TileType::Empty => true,
            _ => false,
        }
    }

    pub fn is_walkable(&self) -> (r: bool)
        ensures
            r == self.spec_is_walkable(),
    {
        match self {
            TileType::Lane => true,
            _ => false,
        }
    }
}

/// What the town records of a building placed on a tile.
#[derive(Clone, Copy, Debug, PartialEq, Eq, Structural)]
pub struct TileState {
    pub entity: Entity,
    pub building_type: BuildingType,
    /// A unit standing on the tile, which a placement may displace; a
    /// building is no such occupant.
    pub transient: bool,
}

/// A rectangle in pixels: its upper left corner and its size.
#[derive(Clone, Copy, Debug, PartialEq, Eq, Structural)]
pub struct Rectangle {
    pub x: u64,
    pub y: u64,
    pub width: u64,
    pub height: u64,
}

/// The edge length of one tile in pixels, at the current screen resolution.
#[derive(Clone, Copy, Debug, PartialEq, Eq, Structural)]
pub struct ScreenResolution {
    pub unit_length: u32,
}

pub open spec fn ceil_div(p: int, d: int) -> int {
    (p + d - 1) / d
}

/// The area of tile `i` at edge length `ul`.
pub open spec fn spec_tile_area(i: TileIndex, ul: u32) -> Rectangle {
    Rectangle {
        x: (i.0 * ul) as u64,
        y: (i.1 * ul) as u64,
        width: ul as u64,
        height: ul as u64,
    }
}

/// Whether the area of tile `i` at edge length `ul` has pixel coordinates that fit.
pub open spec fn area_fits(i: TileIndex, ul: u32) -> bool {
    (i.0 + 1) * ul <= u64::MAX && (i.1 + 1) * ul <= u64::MAX
}

/// Difference of the larger and the smaller of two coordinates.
pub open spec fn rectified(a: usize, b: usize) -> nat {
    if a >= b {
        (a - b) as nat
    } else {
        (b - a) as nat
    }
}

/// Whether tiles `a` and `b` lie within `range` (thousandths of a tile edge) of each other.
pub open spec fn spec_in_range(a: TileIndex, b: TileIndex, range: u32) -> bool {
    (rectified(a.0, b.0) * rectified(a.0, b.0) + rectified(a.1, b.1) * rectified(a.1, b.1)) * (
    RANGE_UNIT * RANGE_UNIT) <= range * range
}

impl ScreenResolution {
    pub open spec fn wf(self) -> bool {
        self.unit_length > 0
    }

    pub fn unit_length(&self) -> (r: u32)
        ensures
            r == self.unit_length,
    {
        self.unit_length
    }

    /// The tile under a pixel position.
    pub fn tile(&self, pos: (u32, u32)) -> (r: TileIndex)
        requires
            self.wf(),
        ensures
            r.0 == pos.0 / self.unit_length,
            r.1 == pos.1 / self.unit_length,
    {
        let ul = self.unit_length();
        Town::find_tile(pos, ul)
    }

    /// The pixel area of a tile.
    pub fn tile_area(&self, i: TileIndex) -> (r: Rectangle)
        requires
            area_fits(i, self.unit_length),
        ensures
            r == spec_tile_area(i, self.unit_length),
    {
        let ul = self.unit_length() as u64;
        proof {
            assert(i.0 * ul <= (i.0 + 1) * ul) by (nonlinear_arith)
                requires ul >= 0;
            assert(i.1 * ul <= (i.1 + 1) * ul) by (nonlinear_arith)
                requires ul >= 0;
        }
        Rectangle { x: (i.0 as u64) * ul, y: (i.1 as u64) * ul, width: ul, height: ul }
    }

    /// The tile reached from `pos` by moving towards `dir` up to the next
    /// tile border, on each axis on which `dir` is not zero.
    pub fn next_tile_in_direction(&self, pos: (u32, u32), dir: (i32, i32)) -> (r: TileIndex)
        requires
            self.wf(),
        ensures
            r.0 == if dir.0 > 0 {
                ceil_div(pos.0 as int, self.unit_length as int)
            } else {
                (pos.0 / self.unit_length) as int
            },
            r.1 == if dir.1 > 0 {
                ceil_div(pos.1 as int, self.unit_length as int)
            } else {
                (pos.1 / self.unit_length) as int
            },
    {
        let ul = self.unit_length();
        let x = if dir.0 > 0 {
            ceil_steps(pos.0, ul)
        } else {
            pos.0 / ul
        };
        let y = if dir.1 > 0 {
            ceil_steps(pos.1, ul)
        } else {
            pos.1 / ul
        };
        (x as usize, y as usize)
    }
}

/// How many steps of length `d` cover `p`.
fn ceil_steps(p: u32, d: u32) -> (r: u32)
    requires
        d > 0,
    ensures
        r == ceil_div(p as int, d as int),
{
    let q = p / d;
    proof {
        let (pi, di, qi) = (p as int, d as int, q as int);
        assert(pi == di * qi + pi % di) by (nonlinear_arith)
            requires di > 0, qi == pi / di;
        assert(qi <= pi) by (nonlinear_arith)
            requires di > 0, qi == pi / di, pi >= 0;
        if p % d == 0 {
            assert((pi + di - 1) / di == qi) by (nonlinear_arith)
                requires di > 0, pi == di * qi;
        } else {
            assert((pi + di - 1) / di == qi + 1) by (nonlinear_arith)
                requires di > 0, pi == di * qi + pi % di, 0 < pi % di < di;
            assert(qi < pi) by (nonlinear_arith)
                requires di > 0, qi >= 0, pi == di * qi + pi % di, 0 < pi % di < di;
        }
    }
    if p % d == 0 {
        q
    } else {
        q + 1
    }
}

/// The town: a fixed grid of tiles, and the buildings placed on it.
pub struct Town {
    map: Vec<Vec<TileType>>,
    state: Vec<Vec<Option<TileState>>>,
    width: usize,
    height: usize,
    resolution: ScreenResolution,
}

impl Town {
    pub closed spec fn spec_width(&self) -> nat {
        self.width as nat
    }

    pub closed spec fn spec_height(&self) -> nat {
        self.height as nat
    }

    pub closed spec fn spec_resolution(&self) -> ScreenResolution {
        self.resolution
    }

    pub open spec fn in_bounds(&self, c: TileIndex) -> bool {
        c.0 < self.spec_width() && c.1 < self.spec_height()
    }

    /// The tile at `c`, or none outside the grid.
    pub closed spec fn spec_tile(&self, c: TileIndex) -> Option<TileType> {
        if self.in_bounds(c) {
            Some(self.map@[c.0 as int]@[c.1 as int])
        } else {
            None
        }
    }

    /// The building recorded at `c`, if any.
    pub closed spec fn spec_state(&self, c: TileIndex) -> Option<TileState> {
        if self.in_bounds(c) {
            self.state@[c.0 as int]@[c.1 as int]
        } else {
            None
        }
    }

    pub open spec fn spec_buildable(&self, c: TileIndex) -> bool {
        self.spec_tile(c) == Some(TileType::Empty)
    }

    pub open spec fn spec_walkable(&self, c: TileIndex) -> bool {
        self.spec_tile(c) == Some(TileType::Lane)
    }

    /// A building, not a unit, is recorded at `c`.
    pub open spec fn spec_holds_building(&self, c: TileIndex) -> bool {
        self.spec_state(c) is Some && !self.spec_state(c)->0.transient
    }

    /// The grid and the record of buildings agree on tile `c`.
    pub open spec fn agrees_at(&self, c: TileIndex) -> bool {
        match self.spec_tile(c) {
            Some(TileType::Building(e)) => self.spec_state(c) is Some && self.spec_state(
                c,
            )->0.entity == e,
            _ => self.spec_state(c) is None,
        }
    }

    pub closed spec fn wf(&self) -> bool {
        &&& self.map@.len() == self.width
        &&& self.state@.len() == self.width
        &&& forall|x: int| 0 <= x < self.width ==> #[trigger] self.map@[x]@.len() == self.height
        &&& forall|x: int| 0 <= x < self.width ==> #[trigger] self.state@[x]@.len() == self.height
        &&& forall|c: TileIndex| #[trigger] self.agrees_at(c)
        &&& self.resolution.wf()
        &&& self.width * self.resolution.unit_length <= u64::MAX
        &&& self.height * self.resolution.unit_length <= u64::MAX
    }

    /// Every tile of a well-formed town agrees with the record of buildings.
    pub proof fn lemma_agrees(&self, c: TileIndex)
        requires
            self.wf(),
        ensures
            self.agrees_at(c),
            self.spec_resolution().wf(),
            self.in_bounds(c) <==> self.spec_tile(c) is Some,
    {
    }

    /// The pixel area of every tile of a well-formed town fits.
    pub proof fn lemma_area_fits(&self, c: TileIndex)
        requires
            self.wf(),
            self.in_bounds(c),
        ensures
            area_fits(c, self.spec_resolution().unit_length),
    {
        let ul = self.resolution.unit_length as int;
        assert((c.0 + 1) * ul <= self.width * ul) by (nonlinear_arith)
            requires c.0 + 1 <= self.width, ul >= 0;
        assert((c.1 + 1) * ul <= self.height * ul) by (nonlinear_arith)
            requires c.1 + 1 <= self.height, ul >= 0;
    }

    /// The tile under a pixel position, at edge length `ul`.
    pub fn find_tile(pos: (u32, u32), ul: u32) -> (r: TileIndex)
        requires
            ul > 0,
        ensures
            r.0 == pos.0 / ul,
            r.1 == pos.1 / ul,
    {
        let x = pos.0 / ul;
        let y = pos.1 / ul;
        (x as usize, y as usize)
    }

    /// A town of `width` by `height` empty tiles, but for the row `lane_row`,
    /// which is a lane (no row is, where `lane_row` is not below `height`).
    pub fn new(width: usize, height: usize, lane_row: usize, resolution: ScreenResolution) -> (r:
        Town)
        requires
            resolution.wf(),
            width * resolution.unit_length <= u64::MAX,
            height * resolution.unit_length <= u64::MAX,
        ensures
            r.wf(),
            r.spec_width() == width,
            r.spec_height() == height,
            r.spec_resolution() == resolution,
            forall|c: TileIndex| #[trigger] r.spec_state(c) is None,
            forall|c: TileIndex|
                r.in_bounds(c) ==> #[trigger] r.spec_tile(c) == Some(
                    if c.1 == lane_row {
                        TileType::Lane
                    } else {
                        TileType::Empty
                    },
                ),
    {
        let mut map: Vec<Vec<TileType>> = Vec::new();
        let mut state: Vec<Vec<Option<TileState>>> = Vec::new();
        let mut x: usize = 0;
        while x < width
            invariant
                x <= width,
                map@.len() == x,
                state@.len() == x,
                forall|i: int| 0 <= i < x ==> #[trigger] map@[i]@.len() == height,
                forall|i: int| 0 <= i < x ==> #[trigger] state@[i]@.len() == height,
                forall|i: int, j: int|
                    0 <= i < x && 0 <= j < height ==> #[trigger] map@[i]@[j] == (if j
                        == lane_row {
                        TileType::Lane
                    } else {
                        TileType::Empty
                    }) && state@[i]@[j] is None,
            decreases width - x,
        {
            let mut col: Vec<TileType> = Vec::new();
            let mut col_state: Vec<Option<TileState>> = Vec::new();
            let mut y: usize = 0;
            while y < height
                invariant
                    y <= height,
                    col@.len() == y,
                    col_state@.len() == y,
                    forall|j: int|
                        0 <= j < y ==> #[trigger] col@[j] == (if j == lane_row {
                            TileType::Lane
                        } else {
                            TileType::Empty
                        }) && col_state@[j] is None,
                decreases height - y,
            {
                if y == lane_row {
                    col.push(TileType::Lane);
                } else {
                    col.push(TileType::Empty);
                }
                col_state.push(None);
                y = y + 1;
            }
            map.push(col);
            state.push(col_state);
            x = x + 1;
        }
        let town = Town { map, state, width, height, resolution };
        assert forall|c: TileIndex| #[trigger] town.spec_state(c) is None by {
            if town.in_bounds(c) {
                assert(town.map@[c.0 as int]@[c.1 as int] == (if c.1 == lane_row {
                    TileType::Lane
                } else {
                    TileType::Empty
                }));
            }
        }
        assert forall|c: TileIndex| #[trigger] town.agrees_at(c) by {
            if town.in_bounds(c) {
                assert(town.map@[c.0 as int]@[c.1 as int] == (if c.1 == lane_row {
                    TileType::Lane
                } else {
                    TileType::Empty
                }));
                assert(town.state@[c.0 as int]@[c.1 as int] is None);
            }
        }
        town
    }

    pub fn width(&self) -> (r: usize)
        ensures
            r == self.spec_width(),
    {
        self.width
    }

    pub fn height(&self) -> (r: usize)
        ensures
            r == self.spec_height(),
    {
        self.height
    }

    pub fn resolution(&self) -> (r: ScreenResolution)
        ensures
            r == self.spec_resolution(),
    {
        self.resolution
    }

    /// The tile at `c`; none outside the grid.
    pub fn tile_type(&self, c: TileIndex) -> (r: Option<TileType>)
        requires
            self.wf(),
        ensures
            r == self.spec_tile(c),
    {
        if c.0 < self.width && c.1 < self.height {
            Some(self.map[c.0][c.1])
        } else {
            None
        }
    }

    /// The building placed at `c`, if any.
    pub fn tile_state(&self, c: TileIndex) -> (r: Option<&TileState>)
        requires
            self.wf(),
        ensures
            match r {
                Some(s) => self.spec_state(c) == Some(*s),
                None => self.spec_state(c) is None,
            },
    {
        if c.0 < self.width && c.1 < self.height {
            self.state[c.0][c.1].as_ref()
        } else {
            None
        }
    }
}


impl Town {
    /// Whether a building may be placed at `c`: only on an empty tile of the grid.
    pub fn is_buildable(&self, c: TileIndex) -> (r: bool)
        requires
            self.wf(),
        ensures
            r == self.spec_buildable(c),
            r ==> self.in_bounds(c),
    {
        let maybe_tile = self.tile_type(c);
        match maybe_tile {
            None => false,
            Some(t) => t.is_buildable(),
        }
    }

    /// Whether units may walk on `c`: only on a lane of the grid.
    pub fn is_walkable(&self, c: TileIndex) -> (r: bool)
        requires
            self.wf(),
        ensures
            r == self.spec_walkable(c),
    {
        let maybe_tile = self.tile_type(c);
        match maybe_tile {
            None => false,
            Some(t) => t.is_walkable(),
        }
    }

    /// The pixel area of a tile, at the town's resolution.
    pub fn tile_area(&self, c: TileIndex) -> (r: Rectangle)
        requires
            area_fits(c, self.spec_resolution().unit_length),
        ensures
            r == spec_tile_area(c, self.spec_resolution().unit_length),
    {
        self.resolution.tile_area(c)
    }

    /// Records `entity`, of kind `bt`, at `c`: a unit where `transient`,
    /// else a building.
    pub fn place(&mut self, c: TileIndex, bt: BuildingType, entity: Entity, transient: bool)
        requires
            old(self).wf(),
            old(self).spec_buildable(c),
        ensures
            final(self).wf(),
            final(self).spec_width() == old(self).spec_width(),
            final(self).spec_height() == old(self).spec_height(),
            final(self).spec_resolution() == old(self).spec_resolution(),
            final(self).spec_tile(c) == Some(TileType::Building(entity)),
            final(self).spec_state(c) == Some(TileState { entity, building_type: bt, transient }),
            forall|d: TileIndex|
                d != c ==> #[trigger] final(self).spec_tile(d) == old(self).spec_tile(d)
                    && final(self).spec_state(d) == old(self).spec_state(d),
    {
        self.set_tile(
            c,
            TileType::Building(entity),
            Some(TileState { entity, building_type: bt, transient }),
        );
    }

    /// Records `entity`, a building of kind `bt`, at `c`.
    pub fn place_building(&mut self, c: TileIndex, bt: BuildingType, entity: Entity)
        requires
            old(self).wf(),
            old(self).spec_buildable(c),
        ensures
            final(self).wf(),
            final(self).spec_width() == old(self).spec_width(),
            final(self).spec_height() == old(self).spec_height(),
            final(self).spec_resolution() == old(self).spec_resolution(),
            final(self).spec_tile(c) == Some(TileType::Building(entity)),
            final(self).spec_state(c) == Some(
                TileState { entity, building_type: bt, transient: false },
            ),
            forall|d: TileIndex|
                d != c ==> #[trigger] final(self).spec_tile(d) == old(self).spec_tile(d)
                    && final(self).spec_state(d) == old(self).spec_state(d),
    {
        self.place(c, bt, entity, false);
    }

    /// Removes the building at `c`, if there is one, leaving the tile empty.
    pub fn remove_building(&mut self, c: TileIndex) -> (r: Option<Entity>)
        requires
            old(self).wf(),
        ensures
            final(self).wf(),
            final(self).spec_width() == old(self).spec_width(),
            final(self).spec_height() == old(self).spec_height(),
            final(self).spec_resolution() == old(self).spec_resolution(),
            match old(self).spec_state(c) {
                Some(s) => r == Some(s.entity) && final(self).spec_tile(c) == Some(TileType::Empty)
                    && final(self).spec_state(c) is None,
                None => r is None && final(self).spec_tile(c) == old(self).spec_tile(c)
                    && final(self).spec_state(c) is None,
            },
            forall|d: TileIndex|
                d != c ==> #[trigger] final(self).spec_tile(d) == old(self).spec_tile(d)
                    && final(self).spec_state(d) == old(self).spec_state(d),
    {
        if c.0 < self.width && c.1 < self.height {
            match self.state[c.0][c.1] {
                Some(s) => {
                    proof {
                        self.lemma_agrees(c);
                    }
                    self.set_tile(c, TileType::Empty, None);
                    Some(s.entity)
                },
                None => None,
            }
        } else {
            None
        }
    }

    /// Clears the tile at `c` of a unit standing there, ahead of a placement
    /// there; a building, a lane or an empty tile stays as it is.
    pub fn make_room_for_building(&mut self, c: TileIndex) -> (r: Option<Entity>)
        requires
            old(self).wf(),
        ensures
            final(self).wf(),
            if old(self).spec_state(c) is Some && old(self).spec_state(c)->0.transient {
                &&& r == Some(old(self).spec_state(c)->0.entity)
                &&& final(self).spec_width() == old(self).spec_width()
                &&& final(self).spec_height() == old(self).spec_height()
                &&& final(self).spec_resolution() == old(self).spec_resolution()
                &&& final(self).spec_state(c) is None
                &&& final(self).spec_tile(c) == Some(TileType::Empty)
                &&& forall|d: TileIndex|
                    d != c ==> #[trigger] final(self).spec_tile(d) == old(self).spec_tile(d)
                        && final(self).spec_state(d) == old(self).spec_state(d)
            } else {
                r is None && *final(self) == *old(self)
            },
    {
        let transient = match self.tile_state(c) {
            Some(s) => s.transient,
            None => false,
        };
        if transient {
            self.remove_building(c)
        } else {
            None
        }
    }

    fn set_tile(&mut self, c: TileIndex, t: TileType, s: Option<TileState>)
        requires
            old(self).wf(),
            old(self).in_bounds(c),
            match t {
                TileType::Building(e) => s is Some && s->0.entity == e,
                _ => s is None,
            },
        ensures
            final(self).wf(),
            final(self).spec_width() == old(self).spec_width(),
            final(self).spec_height() == old(self).spec_height(),
            final(self).spec_resolution() == old(self).spec_resolution(),
            final(self).spec_tile(c) == Some(t),
            final(self).spec_state(c) == s,
            forall|d: TileIndex|
                d != c ==> #[trigger] final(self).spec_tile(d) == old(self).spec_tile(d)
                    && final(self).spec_state(d) == old(self).spec_state(d),
    {
        let ghost pre = *self;
        self.map[c.0][c.1] = t;
        self.state[c.0][c.1] = s;
        assert forall|d: TileIndex| d != c implies #[trigger] self.spec_tile(d) == pre.spec_tile(d)
            && self.spec_state(d) == pre.spec_state(d) by {
            if self.in_bounds(d) && d.0 == c.0 {
                assert(self.map@[d.0 as int]@[d.1 as int] == pre.map@[d.0 as int]@[d.1 as int]);
            }
        }
        assert forall|d: TileIndex| #[trigger] self.agrees_at(d) by {
            if d != c {
                assert(pre.agrees_at(d));
            }
        }
    }

    /// Whether tiles `a` and `b` lie within `range` (thousandths of a tile
    /// edge) of each other, by the rectified distance: the difference of the
    /// larger and the smaller coordinate on each axis.
    pub fn are_tiles_in_range(a: TileIndex, b: TileIndex, range: u32) -> (r: bool)
        ensures
            r == spec_in_range(a, b, range),
    {
        let dx: usize = if a.0 >= b.0 { a.0 - b.0 } else { b.0 - a.0 };
        let dy: usize = if a.1 >= b.1 { a.1 - b.1 } else { b.1 - a.1 };
        let unit = RANGE_UNIT as u128;
        let rr = range as u128;
        let sx = (dx as u128) * unit;
        let sy = (dy as u128) * unit;
        proof {
            let (dxi, dyi, ui, ri) = (dx as int, dy as int, unit as int, rr as int);
            assert((dxi * dxi + dyi * dyi) * (ui * ui) == (dxi * ui) * (dxi * ui) + (dyi * ui) * (
            dyi * ui)) by (nonlinear_arith);
            if sx > rr {
                assert((dxi * ui) * (dxi * ui) > ri * ri) by (nonlinear_arith)
                    requires dxi * ui > ri, ri >= 0;
                assert((dyi * ui) * (dyi * ui) >= 0) by (nonlinear_arith);
            }
            if sy > rr {
                assert((dyi * ui) * (dyi * ui) > ri * ri) by (nonlinear_arith)
                    requires dyi * ui > ri, ri >= 0;
                assert((dxi * ui) * (dxi * ui) >= 0) by (nonlinear_arith);
            }
            if sx <= rr && sy <= rr {
                assert(sx * sx <= rr * rr) by (nonlinear_arith)
                    requires sx <= rr, sx >= 0;
                assert(sy * sy <= rr * rr) by (nonlinear_arith)
                    requires sy <= rr, sy >= 0;
                assert(rr * rr <= 0x1_0000_0000_0000_0000) by (nonlinear_arith)
                    requires rr <= 0xffff_ffff;
            }
        }
        if sx > rr || sy > rr {
            return false;
        }
        sx * sx + sy * sy <= rr * rr
    }
}

impl Town {
    /// The tiles whose rectified distance from `center` is within `radius`
    /// (thousandths of a tile edge), column by column.
    pub fn tiles_in_rectified_circle(center: TileIndex, radius: u32) -> (r: Vec<TileIndex>)
        ensures
            forall|t: TileIndex| #[trigger] r@.contains(t) <==> spec_in_range(center, t, radius),
            r@.no_duplicates(),
    {
        broadcast use vstd::seq_lib::lemma_seq_contains_after_push;

        let reach: usize = ((radius as u64 + (RANGE_UNIT - 1) as u64) / RANGE_UNIT as u64) as usize;
        let xmin: usize = if center.0 >= reach { center.0 - reach } else { 0 };
        let ymin: usize = if center.1 >= reach { center.1 - reach } else { 0 };
        let xmax: u128 = bounded_sum(center.0, reach);
        let ymax: u128 = bounded_sum(center.1, reach);
        proof {
            assert forall|t: TileIndex| spec_in_range(center, t, radius) implies xmin <= t.0 <= xmax
                && ymin <= t.1 <= ymax by {
                lemma_in_range_reach(center, t, radius);
            }
        }
        let mut tiles: Vec<TileIndex> = Vec::new();
        let mut x: u128 = xmin as u128;
        while x <= xmax
            invariant
                xmin <= x <= xmax + 1,
                ymin <= ymax,
                xmax <= usize::MAX,
                ymax <= usize::MAX,
                forall|t: TileIndex| spec_in_range(center, t, radius) ==> xmin <= t.0 <= xmax
                    && ymin <= t.1 <= ymax,
                forall|t: TileIndex|
                    tiles@.contains(t) <==> (t.0 < x && spec_in_range(center, t, radius)),
                tiles@.no_duplicates(),
            decreases xmax + 1 - x,
        {
            let mut y: u128 = ymin as u128;
            while y <= ymax
                invariant
                    xmin <= x <= xmax,
                    ymin <= y <= ymax + 1,
                    xmax <= usize::MAX,
                    ymax <= usize::MAX,
                    forall|t: TileIndex| spec_in_range(center, t, radius) ==> xmin <= t.0 <= xmax
                        && ymin <= t.1 <= ymax,
                    forall|t: TileIndex|
                        tiles@.contains(t) <==> ((t.0 < x || (t.0 == x && t.1 < y))
                            && spec_in_range(center, t, radius)),
                    tiles@.no_duplicates(),
                decreases ymax + 1 - y,
            {
                let t: TileIndex = (x as usize, y as usize);
                let ghost before = tiles@;
                if Town::are_tiles_in_range(center, t, radius) {
                    assert(!before.contains(t));
                    tiles.push(t);
                    assert forall|j: int, k: int|
                        0 <= j < tiles@.len() && 0 <= k < tiles@.len() && j != k implies tiles@[j]
                        != tiles@[k] by {
                        if k == before.len() {
                            assert(before.contains(tiles@[j]));
                        } else if j == before.len() {
                            assert(before.contains(tiles@[k]));
                        }
                    }
                }
                assert forall|u: TileIndex|
                    tiles@.contains(u) <==> ((u.0 < x || (u.0 == x && u.1 < y + 1))
                        && spec_in_range(center, u, radius)) by {
                    if tiles@.len() > before.len() {
                        assert(tiles@ == before.push(t));
                        vstd::seq_lib::lemma_seq_contains_after_push(before, t, u);
                    }
                    if u == t {
                        assert(u.0 == x && u.1 == y);
                    }
                }
                y = y + 1;
            }
            x = x + 1;
        }
        tiles
    }

    /// The lane tiles of the town within `radius` of `center`.
    pub fn lane_in_range(&self, center: TileIndex, radius: u32) -> (r: Vec<TileIndex>)
        requires
            self.wf(),
        ensures
            forall|t: TileIndex| #[trigger]
                r@.contains(t) <==> (spec_in_range(center, t, radius) && self.spec_walkable(t)),
            r@.no_duplicates(),
    {
        broadcast use vstd::seq_lib::lemma_seq_contains_after_push;

        let circle = Town::tiles_in_rectified_circle(center, radius);
        let mut lanes: Vec<TileIndex> = Vec::new();
        let mut i: usize = 0;
        while i < circle.len()
            invariant
                i <= circle@.len(),
                self.wf(),
                forall|t: TileIndex| circle@.contains(t) <==> spec_in_range(center, t, radius),
                circle@.no_duplicates(),
                lanes@.no_duplicates(),
                forall|t: TileIndex|
                    lanes@.contains(t) <==> (exists|j: int|
                        0 <= j < i && circle@[j] == t && self.spec_walkable(t)),
            decreases circle@.len() - i,
        {
            let t = circle[i];
            let ghost before = lanes@;
            if self.is_walkable(t) {
                proof {
                    if before.contains(t) {
                        let j = choose|j: int| 0 <= j < i && circle@[j] == t && self.spec_walkable(t);
                        assert(circle@[j] == circle@[i as int]);
                    }
                }
                lanes.push(t);
                assert forall|j: int, k: int|
                    0 <= j < lanes@.len() && 0 <= k < lanes@.len() && j != k implies lanes@[j]
                    != lanes@[k] by {
                    if k == before.len() {
                        assert(before.contains(lanes@[j]));
                    } else if j == before.len() {
                        assert(before.contains(lanes@[k]));
                    }
                }
            }
            assert forall|u: TileIndex|
                lanes@.contains(u) <==> (exists|j: int|
                    0 <= j < i + 1 && circle@[j] == u && self.spec_walkable(u)) by {
                if lanes@.len() > before.len() {
                    assert(lanes@ == before.push(t));
                    vstd::seq_lib::lemma_seq_contains_after_push(before, t, u);
                }
                if exists|j: int| 0 <= j < i + 1 && circle@[j] == u && self.spec_walkable(u) {
                    let j = choose|j: int| 0 <= j < i + 1 && circle@[j] == u && self.spec_walkable(u);
                    if j < i {
                        assert(exists|k: int| 0 <= k < i && circle@[k] == u && self.spec_walkable(u));
                    } else {
                        assert(u == t);
                    }
                }
                if lanes@.contains(u) {
                    if u == t && self.spec_walkable(u) {
                        assert(0 <= i < i + 1 && circle@[i as int] == u);
                    } else {
                        let k = choose|k: int| 0 <= k < i && circle@[k] == u && self.spec_walkable(u);
                        assert(0 <= k < i + 1 && circle@[k] == u);
                    }
                }
            }
            i = i + 1;
        }
        assert forall|t: TileIndex|
            lanes@.contains(t) <==> (spec_in_range(center, t, radius) && self.spec_walkable(t)) by {
            if spec_in_range(center, t, radius) && self.spec_walkable(t) {
                assert(circle@.contains(t));
                let j = choose|j: int| 0 <= j < circle@.len() && circle@[j] == t;
                assert(0 <= j < i && circle@[j] == t && self.spec_walkable(t));
            }
        }
        lanes
    }
}

impl Town {
    /// The tiles to shadow to show a circle of `radius` (thousandths of a
    /// tile edge) around the tile under the pixel position `center`.
    pub fn shadow_rectified_circle(resolution: ScreenResolution, center: (u32, u32), radius: u32) -> (r:
        Vec<TileIndex>)
        requires
            resolution.wf(),
        ensures
            forall|t: TileIndex| #[trigger]
                r@.contains(t) <==> spec_in_range(
                    (
                        (center.0 / resolution.unit_length) as usize,
                        (center.1 / resolution.unit_length) as usize,
                    ),
                    t,
                    radius,
                ),
            r@.no_duplicates(),
    {
        let tile = resolution.tile(center);
        Town::tiles_in_rectified_circle(tile, radius)
    }
}

/// `a + b`, or the largest `usize` where the sum exceeds it.
fn bounded_sum(a: usize, b: usize) -> (r: u128)
    ensures
        r == if a + b <= usize::MAX { a + b } else { usize::MAX as int },
{
    let s = a as u128 + b as u128;
    if s > usize::MAX as u128 {
        usize::MAX as u128
    } else {
        s
    }
}

/// Within range, each axis differs by no more than the radius rounded up to whole tiles.
proof fn lemma_in_range_reach(a: TileIndex, b: TileIndex, range: u32)
    requires
        spec_in_range(a, b, range),
    ensures
        rectified(a.0, b.0) <= (range + RANGE_UNIT - 1) / (RANGE_UNIT as int),
        rectified(a.1, b.1) <= (range + RANGE_UNIT - 1) / (RANGE_UNIT as int),
{
    let (dx, dy, u, r) = (
        rectified(a.0, b.0) as int,
        rectified(a.1, b.1) as int,
        RANGE_UNIT as int,
        range as int,
    );
    assert(dx * u <= r) by (nonlinear_arith)
        requires (dx * dx + dy * dy) * (u * u) <= r * r, dx >= 0, dy >= 0, u > 0, r >= 0;
    assert(dy * u <= r) by (nonlinear_arith)
        requires (dx * dx + dy * dy) * (u * u) <= r * r, dx >= 0, dy >= 0, u > 0, r >= 0;
    assert(dx <= (r + u - 1) / u) by (nonlinear_arith)
        requires dx * u <= r, u > 0, dx >= 0;
    assert(dy <= (r + u - 1) / u) by (nonlinear_arith)
        requires dy * u <= r, u > 0, dy >= 0;
}

/// Outside the grid there is no tile: none is buildable or walkable.
pub proof fn lemma_outside_grid(town: &Town, c: TileIndex)
    requires
        town.wf(),
        !town.in_bounds(c),
    ensures
        town.spec_tile(c) is None,
        !town.spec_buildable(c),
        !town.spec_walkable(c),
{
}

/// A lane is walkable and never buildable.
pub proof fn lemma_lane(town: &Town, c: TileIndex)
    requires
        town.wf(),
        town.spec_tile(c) == Some(TileType::Lane),
    ensures
        town.spec_walkable(c),
        !town.spec_buildable(c),
{
}

/// A tile with a building recorded on it is occupied by that building's
/// entity and is not buildable, in every well-formed town: so after a
/// placement it stays so until the building is removed.
pub proof fn lemma_occupied_not_buildable(town: &Town, c: TileIndex, e: Entity)
    requires
        town.wf(),
        town.spec_state(c) is Some,
        town.spec_state(c)->0.entity == e,
    ensures
        town.spec_tile(c) == Some(TileType::Building(e)),
        !town.spec_buildable(c),
{
    town.lemma_agrees(c);
}

/// The range test does not depend on the order of the two tiles.
pub proof fn lemma_range_symmetric(a: TileIndex, b: TileIndex, range: u32)
    ensures
        spec_in_range(a, b, range) == spec_in_range(b, a, range),
{
}

} // verus!
