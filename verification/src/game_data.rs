//! The engine's static per-game catalog, reduced to the plain values
//! the library reads: per-type production ability and cost, and
//! per-upgrade cost. Supply is a fixed-point value in half-supplies.

use vstd::prelude::*;
use crate::vecmap::VecMap;

verus! {

/// What producing one unit or upgrade costs. `supply` counts half
/// supplies, so the smallest real cost step is representable exactly.
#[derive(Clone, Copy, Debug, PartialEq, Eq, Structural)]
pub struct Cost {
    pub minerals: u32,
    pub vespene: u32,
    pub supply: u32,
}

impl Cost {
    pub fn zero() -> (c: Cost)
        ensures
            c.minerals == 0 && c.vespene == 0 && c.supply == 0,
    {
        Cost { minerals: 0, vespene: 0, supply: 0 }
    }
}

/// The catalog entry of one unit type.
#[derive(Clone, Copy, Debug)]
pub struct UnitTypeData {
    /// The ability that produces a unit of this type, when the
    /// catalog lists one.
    pub ability: Option<u32>,
    pub cost: Cost,
}

/// The static game catalog, keyed by unit-type and upgrade identifiers.
#[derive(Clone, Debug)]
pub struct GameData {
    pub units: VecMap<UnitTypeData>,
    pub upgrades: VecMap<Cost>,
}

impl GameData {
    pub open spec fn wf(self) -> bool {
        self.units.wf() && self.upgrades.wf()
    }

    pub fn new() -> (g: GameData)
        ensures
            g.wf(),
            g.units@ == Map::<u64, UnitTypeData>::empty(),
            g.upgrades@ == Map::<u64, Cost>::empty(),
    {
        GameData { units: VecMap::new(), upgrades: VecMap::new() }
    }
}

/// The production ability the catalog lists for type `t`, if any.
pub open spec fn spec_production_ability(gd: GameData, t: u32) -> Option<u32> {
    if gd.units@.contains_key(t as u64) {
        gd.units@[t as u64].ability
    } else {
        None
    }
}

/// Look up the production ability of type `t`.
pub fn production_ability(gd: &GameData, t: u32) -> (r: Option<u32>)
    requires
        gd.wf(),
    ensures
        r == spec_production_ability(*gd, t),
{
    match gd.units.get(t as u64) {
        Some(data) => data.ability,
        None => None,
    }
}

} // verus!
