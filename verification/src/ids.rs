//! Catalog of the unit-type and ability identifiers the classifier
//! distinguishes, with the fixed sets the per-tick pass tests against.

use vstd::prelude::*;

verus! {

// Neutral structures.
pub const XELNAGA_TOWER: u32 = 149;

// Mineral-field subtypes.
pub const RICH_MINERAL_FIELD: u32 = 146;
pub const RICH_MINERAL_FIELD_750: u32 = 147;
pub const MINERAL_FIELD: u32 = 341;
pub const MINERAL_FIELD_750: u32 = 483;
pub const LAB_MINERAL_FIELD: u32 = 665;
pub const LAB_MINERAL_FIELD_750: u32 = 666;
pub const PURIFIER_RICH_MINERAL_FIELD: u32 = 796;
pub const PURIFIER_RICH_MINERAL_FIELD_750: u32 = 797;
pub const PURIFIER_MINERAL_FIELD: u32 = 884;
pub const PURIFIER_MINERAL_FIELD_750: u32 = 885;
pub const BATTLE_STATION_MINERAL_FIELD: u32 = 886;
pub const BATTLE_STATION_MINERAL_FIELD_750: u32 = 887;
pub const MINERAL_FIELD_450: u32 = 1960;
pub const MINERAL_FIELD_OPAQUE: u32 = 1961;
pub const MINERAL_FIELD_OPAQUE_900: u32 = 1962;

// Vespene-geyser subtypes.
pub const VESPENE_GEYSER: u32 = 342;
pub const SPACE_PLATFORM_GEYSER: u32 = 343;
pub const RICH_VESPENE_GEYSER: u32 = 344;
pub const PROTOSS_VESPENE_GEYSER: u32 = 608;
pub const PURIFIER_VESPENE_GEYSER: u32 = 880;
pub const SHAKURAS_VESPENE_GEYSER: u32 = 881;

// Inhibitor / acceleration zones.
pub const INHIBITOR_ZONE_SMALL: u32 = 1955;
pub const INHIBITOR_ZONE_MEDIUM: u32 = 1956;
pub const INHIBITOR_ZONE_LARGE: u32 = 1957;

// Townhalls of every faction.
pub const COMMAND_CENTER: u32 = 18;
pub const COMMAND_CENTER_FLYING: u32 = 36;
pub const NEXUS: u32 = 59;
pub const HATCHERY: u32 = 86;
pub const LAIR: u32 = 100;
pub const HIVE: u32 = 101;
pub const PLANETARY_FORTRESS: u32 = 130;
pub const ORBITAL_COMMAND: u32 = 132;
pub const ORBITAL_COMMAND_FLYING: u32 = 134;

// Gas-harvesting buildings.
pub const REFINERY: u32 = 20;
pub const ASSIMILATOR: u32 = 61;
pub const EXTRACTOR: u32 = 88;
pub const REFINERY_RICH: u32 = 1943;
pub const ASSIMILATOR_RICH: u32 = 1944;
pub const EXTRACTOR_RICH: u32 = 1945;

// Add-on structures.
pub const TECHLAB: u32 = 5;
pub const REACTOR: u32 = 6;
pub const BARRACKS_TECHLAB: u32 = 37;
pub const BARRACKS_REACTOR: u32 = 38;
pub const FACTORY_TECHLAB: u32 = 39;
pub const FACTORY_REACTOR: u32 = 40;
pub const STARPORT_TECHLAB: u32 = 41;
pub const STARPORT_REACTOR: u32 = 42;

// Workers and larva.
pub const SCV: u32 = 45;
pub const PROBE: u32 = 84;
pub const DRONE: u32 = 104;
pub const LARVA: u32 = 151;

// Other types with special cost rules.
pub const ZERGLING: u32 = 105;

// Abilities referenced directly.
pub const TERRAN_BUILD_SUPPLY_DEPOT: u32 = 319;

pub open spec fn spec_is_mineral_type(t: u32) -> bool {
    t == RICH_MINERAL_FIELD || t == RICH_MINERAL_FIELD_750 || t == MINERAL_FIELD
        || t == MINERAL_FIELD_450 || t == MINERAL_FIELD_750 || t == LAB_MINERAL_FIELD
        || t == LAB_MINERAL_FIELD_750 || t == PURIFIER_RICH_MINERAL_FIELD
        || t == PURIFIER_RICH_MINERAL_FIELD_750 || t == PURIFIER_MINERAL_FIELD
        || t == PURIFIER_MINERAL_FIELD_750 || t == BATTLE_STATION_MINERAL_FIELD
        || t == BATTLE_STATION_MINERAL_FIELD_750 || t == MINERAL_FIELD_OPAQUE
        || t == MINERAL_FIELD_OPAQUE_900
}

pub fn is_mineral_type(t: u32) -> (r: bool)
    ensures
        r == spec_is_mineral_type(t),
{
    t == RICH_MINERAL_FIELD || t == RICH_MINERAL_FIELD_750 || t == MINERAL_FIELD
        || t == MINERAL_FIELD_450 || t == MINERAL_FIELD_750 || t == LAB_MINERAL_FIELD
        || t == LAB_MINERAL_FIELD_750 || t == PURIFIER_RICH_MINERAL_FIELD
        || t == PURIFIER_RICH_MINERAL_FIELD_750 || t == PURIFIER_MINERAL_FIELD
        || t == PURIFIER_MINERAL_FIELD_750 || t == BATTLE_STATION_MINERAL_FIELD
        || t == BATTLE_STATION_MINERAL_FIELD_750 || t == MINERAL_FIELD_OPAQUE
        || t == MINERAL_FIELD_OPAQUE_900
}

pub open spec fn spec_is_geyser_type(t: u32) -> bool {
    t == VESPENE_GEYSER || t == SPACE_PLATFORM_GEYSER || t == RICH_VESPENE_GEYSER
        || t == PROTOSS_VESPENE_GEYSER || t == PURIFIER_VESPENE_GEYSER
        || t == SHAKURAS_VESPENE_GEYSER
}

pub fn is_geyser_type(t: u32) -> (r: bool)
    ensures
        r == spec_is_geyser_type(t),
{
    t == VESPENE_GEYSER || t == SPACE_PLATFORM_GEYSER || t == RICH_VESPENE_GEYSER
        || t == PROTOSS_VESPENE_GEYSER || t == PURIFIER_VESPENE_GEYSER
        || t == SHAKURAS_VESPENE_GEYSER
}

pub open spec fn spec_is_inhibitor_type(t: u32) -> bool {
    t == INHIBITOR_ZONE_SMALL || t == INHIBITOR_ZONE_MEDIUM || t == INHIBITOR_ZONE_LARGE
}

pub fn is_inhibitor_type(t: u32) -> (r: bool)
    ensures
        r == spec_is_inhibitor_type(t),
{
    t == INHIBITOR_ZONE_SMALL || t == INHIBITOR_ZONE_MEDIUM || t == INHIBITOR_ZONE_LARGE
}

pub open spec fn spec_is_townhall_type(t: u32) -> bool {
    t == COMMAND_CENTER || t == ORBITAL_COMMAND || t == PLANETARY_FORTRESS
        || t == COMMAND_CENTER_FLYING || t == ORBITAL_COMMAND_FLYING || t == HATCHERY
        || t == LAIR || t == HIVE || t == NEXUS
}

pub fn is_townhall_type(t: u32) -> (r: bool)
    ensures
        r == spec_is_townhall_type(t),
{
    t == COMMAND_CENTER || t == ORBITAL_COMMAND || t == PLANETARY_FORTRESS
        || t == COMMAND_CENTER_FLYING || t == ORBITAL_COMMAND_FLYING || t == HATCHERY
        || t == LAIR || t == HIVE || t == NEXUS
}

pub open spec fn spec_is_gas_building_type(t: u32) -> bool {
    t == REFINERY || t == REFINERY_RICH || t == ASSIMILATOR || t == ASSIMILATOR_RICH
        || t == EXTRACTOR || t == EXTRACTOR_RICH
}

pub fn is_gas_building_type(t: u32) -> (r: bool)
    ensures
        r == spec_is_gas_building_type(t),
{
    t == REFINERY || t == REFINERY_RICH || t == ASSIMILATOR || t == ASSIMILATOR_RICH
        || t == EXTRACTOR || t == EXTRACTOR_RICH
}

pub open spec fn spec_is_techlab_type(t: u32) -> bool {
    t == TECHLAB || t == BARRACKS_TECHLAB || t == FACTORY_TECHLAB || t == STARPORT_TECHLAB
}

pub fn is_techlab_type(t: u32) -> (r: bool)
    ensures
        r == spec_is_techlab_type(t),
{
    t == TECHLAB || t == BARRACKS_TECHLAB || t == FACTORY_TECHLAB || t == STARPORT_TECHLAB
}

pub open spec fn spec_is_reactor_type(t: u32) -> bool {
    t == REACTOR || t == BARRACKS_REACTOR || t == FACTORY_REACTOR || t == STARPORT_REACTOR
}

pub fn is_reactor_type(t: u32) -> (r: bool)
    ensures
        r == spec_is_reactor_type(t),
{
    t == REACTOR || t == BARRACKS_REACTOR || t == FACTORY_REACTOR || t == STARPORT_REACTOR
}

pub open spec fn spec_is_worker_type(t: u32) -> bool {
    t == SCV || t == PROBE || t == DRONE
}

pub fn is_worker_type(t: u32) -> (r: bool)
    ensures
        r == spec_is_worker_type(t),
{
    t == SCV || t == PROBE || t == DRONE
}

/// Build abilities: orders carrying one of these are construction work
/// and are excluded from the per-ability order counters.
pub open spec fn spec_is_constructing_ability(a: u32) -> bool {
    // Terran build commands.
    (318 <= a <= 333)
    // Protoss build commands.
    || (880 <= a <= 895)
    // Zerg build commands.
    || (1152 <= a <= 1167)
}

pub fn is_constructing_ability(a: u32) -> (r: bool)
    ensures
        r == spec_is_constructing_ability(a),
{
    (318 <= a && a <= 333) || (880 <= a && a <= 895) || (1152 <= a && a <= 1167)
}

} // verus!
