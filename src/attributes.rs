use vstd::prelude::*;

verus! {

/// Ranges are counted in thousandths of a tile edge.
pub const RANGE_UNIT: u32 = 1000;

/// The image that stands for a kind of thing in the town.
#[derive(Clone, Copy, Debug, PartialEq, Eq, Structural)]
pub enum SpriteIndex {
    Grass,
    BlueFlowers,
    RedFlowers,
    Tree,
    BundlingStation,
    Duck,
    HappyDuck,
}

/// The kinds of buildings that a town can hold.
#[derive(Clone, Copy, Debug, PartialEq, Eq, Structural)]
pub enum BuildingType {
    BlueFlowers,
    RedFlowers,
    Tree,
    BundlingStation,
}

impl BuildingType {
    pub open spec fn spec_attack_power(self) -> Option<i64> {
        match self {
            BuildingType::BlueFlowers => Some(1),
            BuildingType::RedFlowers => Some(2),
            BuildingType::Tree => Some(3),
            BuildingType::BundlingStation => None,
        }
    }

    pub open spec fn spec_attacks_per_cycle(self) -> Option<i64> {
        None
    }

    pub open spec fn spec_range(self) -> Option<u32> {
        match self {
            BuildingType::BlueFlowers => Some(2000),
            BuildingType::RedFlowers => Some(1000),
            BuildingType::Tree => Some(1500),
            BuildingType::BundlingStation => None,
        }
    }

    pub open spec fn spec_capacity(self) -> usize {
        match self {
            BuildingType::BundlingStation => 4,
            _ => 0,
        }
    }

    pub open spec fn spec_sprite(self) -> SpriteIndex {
        match self {
            BuildingType::BlueFlowers => SpriteIndex::BlueFlowers,
            BuildingType::RedFlowers => SpriteIndex::RedFlowers,
            BuildingType::Tree => SpriteIndex::Tree,
            BuildingType::BundlingStation => SpriteIndex::BundlingStation,
        }
    }

    /// Whether entities of this kind hold others (a station where workers bundle).
    pub open spec fn spec_is_holding_facility(self) -> bool {
        self is BundlingStation
    }

    /// Power of the effect that the building has on visitors in its range.
    pub fn attack_power(&self) -> (r: Option<i64>)
        ensures
            r == self.spec_attack_power(),
    {
        match self {
            BuildingType::BlueFlowers => Some(1),
            BuildingType::RedFlowers => Some(2),
            BuildingType::Tree => Some(3),
            BuildingType::BundlingStation => None,
        }
    }

    /// How often per cycle the building attacks; no building attacks actively.
    pub fn attacks_per_cycle(&self) -> (r: Option<i64>)
        ensures
            r == self.spec_attacks_per_cycle(),
    {
        None
    }

    /// Reach of the building, in thousandths of a tile edge.
    pub fn range(&self) -> (r: Option<u32>)
        ensures
            r == self.spec_range(),
    {
        match self {
            BuildingType::BlueFlowers => Some(2000),
            BuildingType::RedFlowers => Some(1000),
            BuildingType::Tree => Some(1500),
            BuildingType::BundlingStation => None,
        }
    }

    /// How many entities the building can hold.
    pub fn capacity(&self) -> (r: usize)
        ensures
            r == self.spec_capacity(),
    {
        match self {
            BuildingType::BundlingStation => 4,
            _ => 0,
        }
    }

    pub fn sprite(&self) -> (r: SpriteIndex)
        ensures
            r == self.spec_sprite(),
    {
        match self {
            BuildingType::BlueFlowers => SpriteIndex::BlueFlowers,
            BuildingType::RedFlowers => SpriteIndex::RedFlowers,
            BuildingType::Tree => SpriteIndex::Tree,
            BuildingType::BundlingStation => SpriteIndex::BundlingStation,
        }
    }

    pub fn is_tree(&self) -> (r: bool)
        ensures
            r == (*self is Tree),
    {
        match self {
            BuildingType::Tree => true,
            _ => false,
        }
    }

    pub fn is_holding_facility(&self) -> (r: bool)
        ensures
            r == self.spec_is_holding_facility(),
    {
        match self {
            BuildingType::BundlingStation => true,
            _ => false,
        }
    }
}

} // verus!
