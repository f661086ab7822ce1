//! Per-tick categorized unit views: one pass over the snapshot's
//! units rebuilds every collection from scratch, so no stale
//! membership can survive a tick.

use vstd::prelude::*;
use crate::ids;
use crate::unit::{Alliance, Unit, units_same};
use crate::util::{lemma_filter_take_step, lemma_filter_take_zero, lemma_take_full};

verus! {

// The category predicates, each produced by a single spec function so
// every mention of a filter uses the identical predicate value.

pub open spec fn watchtower_pred() -> spec_fn(Unit) -> bool {
    |u: Unit| u.is_neutral() && u.type_id == ids::XELNAGA_TOWER
}

pub open spec fn mineral_pred() -> spec_fn(Unit) -> bool {
    |u: Unit| u.is_neutral() && ids::spec_is_mineral_type(u.type_id)
}

pub open spec fn geyser_pred() -> spec_fn(Unit) -> bool {
    |u: Unit| u.is_neutral() && ids::spec_is_geyser_type(u.type_id)
}

pub open spec fn resource_pred() -> spec_fn(Unit) -> bool {
    |u: Unit|
        u.is_neutral() && (ids::spec_is_mineral_type(u.type_id) || ids::spec_is_geyser_type(
            u.type_id,
        ))
}

pub open spec fn inhibitor_pred() -> spec_fn(Unit) -> bool {
    |u: Unit|
        u.is_neutral() && !ids::spec_is_mineral_type(u.type_id) && !ids::spec_is_geyser_type(
            u.type_id,
        ) && u.type_id != ids::XELNAGA_TOWER && ids::spec_is_inhibitor_type(u.type_id)
}

pub open spec fn destructable_pred() -> spec_fn(Unit) -> bool {
    |u: Unit|
        u.is_neutral() && !ids::spec_is_mineral_type(u.type_id) && !ids::spec_is_geyser_type(
            u.type_id,
        ) && u.type_id != ids::XELNAGA_TOWER && !ids::spec_is_inhibitor_type(u.type_id)
}

pub open spec fn all_pred(side: Alliance) -> spec_fn(Unit) -> bool {
    |u: Unit| u.alliance == side
}

pub open spec fn structure_pred(side: Alliance) -> spec_fn(Unit) -> bool {
    |u: Unit| u.alliance == side && u.is_structure && !u.is_placeholder
}

pub open spec fn placeholder_pred(side: Alliance) -> spec_fn(Unit) -> bool {
    |u: Unit| u.alliance == side && u.is_structure && u.is_placeholder
}

pub open spec fn townhall_pred(side: Alliance) -> spec_fn(Unit) -> bool {
    |u: Unit|
        u.alliance == side && u.is_structure && !u.is_placeholder
            && ids::spec_is_townhall_type(u.type_id)
}

pub open spec fn gas_building_pred(side: Alliance) -> spec_fn(Unit) -> bool {
    |u: Unit|
        u.alliance == side && u.is_structure && !u.is_placeholder
            && ids::spec_is_gas_building_type(u.type_id)
}

pub open spec fn mobile_pred(side: Alliance) -> spec_fn(Unit) -> bool {
    |u: Unit| u.alliance == side && !u.is_structure
}

pub open spec fn worker_pred(side: Alliance) -> spec_fn(Unit) -> bool {
    |u: Unit| u.alliance == side && !u.is_structure && ids::spec_is_worker_type(u.type_id)
}

pub open spec fn larva_pred(side: Alliance) -> spec_fn(Unit) -> bool {
    |u: Unit| u.alliance == side && !u.is_structure && u.type_id == ids::LARVA
}

pub open spec fn own_techlab_pred() -> spec_fn(Unit) -> bool {
    |u: Unit|
        u.alliance is Own && u.is_structure && !u.is_placeholder && ids::spec_is_techlab_type(
            u.type_id,
        )
}

pub open spec fn own_reactor_pred() -> spec_fn(Unit) -> bool {
    |u: Unit|
        u.alliance is Own && u.is_structure && !u.is_placeholder && ids::spec_is_reactor_type(
            u.type_id,
        )
}

/// One side's categorized unit collections.
pub struct PlayerUnits {
    pub all: Vec<Unit>,
    pub structures: Vec<Unit>,
    pub townhalls: Vec<Unit>,
    pub gas_buildings: Vec<Unit>,
    pub placeholders: Vec<Unit>,
    pub units: Vec<Unit>,
    pub workers: Vec<Unit>,
    pub larvas: Vec<Unit>,
}

impl PlayerUnits {
    /// Every collection is exactly the matching filter of the
    /// snapshot's units, in snapshot order.
    pub open spec fn built_from(self, src: Seq<Unit>, side: Alliance) -> bool {
        self.all@ == src.filter(all_pred(side)) && self.structures@ == src.filter(
            structure_pred(side),
        ) && self.townhalls@ == src.filter(townhall_pred(side)) && self.gas_buildings@
            == src.filter(gas_building_pred(side)) && self.placeholders@ == src.filter(
            placeholder_pred(side),
        ) && self.units@ == src.filter(mobile_pred(side)) && self.workers@ == src.filter(
            worker_pred(side),
        ) && self.larvas@ == src.filter(larva_pred(side))
    }

    pub fn empty() -> (r: PlayerUnits)
        ensures
            r.built_from(Seq::<Unit>::empty(), Alliance::Own),
            r.built_from(Seq::<Unit>::empty(), Alliance::Enemy),
            r.all@ == Seq::<Unit>::empty(),
    {
        let r = PlayerUnits {
            all: Vec::new(),
            structures: Vec::new(),
            townhalls: Vec::new(),
            gas_buildings: Vec::new(),
            placeholders: Vec::new(),
            units: Vec::new(),
            workers: Vec::new(),
            larvas: Vec::new(),
        };
        proof {
            reveal(Seq::filter);
        }
        r
    }

    pub fn same_as(&self, other: &PlayerUnits) -> (r: bool)
        ensures
            r == (self.all@ =~= other.all@ && self.structures@ =~= other.structures@
                && self.townhalls@ =~= other.townhalls@ && self.gas_buildings@
                =~= other.gas_buildings@ && self.placeholders@ =~= other.placeholders@
                && self.units@ =~= other.units@ && self.workers@ =~= other.workers@
                && self.larvas@ =~= other.larvas@),
    {
        units_same(&self.all, &other.all) && units_same(&self.structures, &other.structures)
            && units_same(&self.townhalls, &other.townhalls) && units_same(
            &self.gas_buildings,
            &other.gas_buildings,
        ) && units_same(&self.placeholders, &other.placeholders) && units_same(
            &self.units,
            &other.units,
        ) && units_same(&self.workers, &other.workers) && units_same(&self.larvas, &other.larvas)
    }
}

/// All categorized unit collections of one tick.
pub struct AllUnits {
    pub watchtowers: Vec<Unit>,
    pub resources: Vec<Unit>,
    pub mineral_fields: Vec<Unit>,
    pub vespene_geysers: Vec<Unit>,
    pub inhibitor_zones: Vec<Unit>,
    pub destructables: Vec<Unit>,
    pub my: PlayerUnits,
    pub enemy: PlayerUnits,
}

impl AllUnits {
    /// The whole categorization is exactly the family of filters of
    /// the snapshot's units.
    pub open spec fn built_from(self, src: Seq<Unit>) -> bool {
        self.watchtowers@ == src.filter(watchtower_pred()) && self.resources@ == src.filter(
            resource_pred(),
        ) && self.mineral_fields@ == src.filter(mineral_pred()) && self.vespene_geysers@
            == src.filter(geyser_pred()) && self.inhibitor_zones@ == src.filter(inhibitor_pred())
            && self.destructables@ == src.filter(destructable_pred()) && self.my.built_from(
            src,
            Alliance::Own,
        ) && self.enemy.built_from(src, Alliance::Enemy)
    }

    pub fn empty() -> (r: AllUnits)
        ensures
            r.built_from(Seq::<Unit>::empty()),
    {
        let r = AllUnits {
            watchtowers: Vec::new(),
            resources: Vec::new(),
            mineral_fields: Vec::new(),
            vespene_geysers: Vec::new(),
            inhibitor_zones: Vec::new(),
            destructables: Vec::new(),
            my: PlayerUnits::empty(),
            enemy: PlayerUnits::empty(),
        };
        proof {
            reveal(Seq::filter);
        }
        r
    }

    pub fn same_as(&self, other: &AllUnits) -> (r: bool)
        ensures
            r == (self.watchtowers@ =~= other.watchtowers@ && self.resources@
                =~= other.resources@ && self.mineral_fields@ =~= other.mineral_fields@
                && self.vespene_geysers@ =~= other.vespene_geysers@ && self.inhibitor_zones@
                =~= other.inhibitor_zones@ && self.destructables@ =~= other.destructables@
                && self.my.all@ =~= other.my.all@ && self.my.structures@
                =~= other.my.structures@ && self.my.townhalls@ =~= other.my.townhalls@
                && self.my.gas_buildings@ =~= other.my.gas_buildings@ && self.my.placeholders@
                =~= other.my.placeholders@ && self.my.units@ =~= other.my.units@
                && self.my.workers@ =~= other.my.workers@ && self.my.larvas@
                =~= other.my.larvas@ && self.enemy.all@ =~= other.enemy.all@
                && self.enemy.structures@ =~= other.enemy.structures@ && self.enemy.townhalls@
                =~= other.enemy.townhalls@ && self.enemy.gas_buildings@
                =~= other.enemy.gas_buildings@ && self.enemy.placeholders@
                =~= other.enemy.placeholders@ && self.enemy.units@ =~= other.enemy.units@
                && self.enemy.workers@ =~= other.enemy.workers@ && self.enemy.larvas@
                =~= other.enemy.larvas@),
    {
        units_same(&self.watchtowers, &other.watchtowers) && units_same(
            &self.resources,
            &other.resources,
        ) && units_same(&self.mineral_fields, &other.mineral_fields) && units_same(
            &self.vespene_geysers,
            &other.vespene_geysers,
        ) && units_same(&self.inhibitor_zones, &other.inhibitor_zones) && units_same(
            &self.destructables,
            &other.destructables,
        ) && self.my.same_as(&other.my) && self.enemy.same_as(&other.enemy)
    }
}

/// Classify one side's units out of the snapshot.
fn classify_side(src: &Vec<Unit>, own: bool) -> (r: PlayerUnits)
    ensures
        r.built_from(src@, if own { Alliance::Own } else { Alliance::Enemy }),
{
    let ghost side: Alliance = if own { Alliance::Own } else { Alliance::Enemy };
    let mut r = PlayerUnits::empty();
    proof {
        lemma_filter_take_zero(src@, all_pred(side));
        lemma_filter_take_zero(src@, structure_pred(side));
        lemma_filter_take_zero(src@, townhall_pred(side));
        lemma_filter_take_zero(src@, gas_building_pred(side));
        lemma_filter_take_zero(src@, placeholder_pred(side));
        lemma_filter_take_zero(src@, mobile_pred(side));
        lemma_filter_take_zero(src@, worker_pred(side));
        lemma_filter_take_zero(src@, larva_pred(side));
    }
    let n: usize = src.len();
    let mut i: usize = 0;
    while i < n
        invariant
            i <= n,
            n == src@.len(),
            side == if own { Alliance::Own } else { Alliance::Enemy },
            r.all@ == src@.take(i as int).filter(all_pred(side)),
            r.structures@ == src@.take(i as int).filter(structure_pred(side)),
            r.townhalls@ == src@.take(i as int).filter(townhall_pred(side)),
            r.gas_buildings@ == src@.take(i as int).filter(gas_building_pred(side)),
            r.placeholders@ == src@.take(i as int).filter(placeholder_pred(side)),
            r.units@ == src@.take(i as int).filter(mobile_pred(side)),
            r.workers@ == src@.take(i as int).filter(worker_pred(side)),
            r.larvas@ == src@.take(i as int).filter(larva_pred(side)),
        decreases n - i,
    {
        let u: Unit = src[i];
        proof {
            lemma_filter_take_step(src@, all_pred(side), i as int);
            lemma_filter_take_step(src@, structure_pred(side), i as int);
            lemma_filter_take_step(src@, townhall_pred(side), i as int);
            lemma_filter_take_step(src@, gas_building_pred(side), i as int);
            lemma_filter_take_step(src@, placeholder_pred(side), i as int);
            lemma_filter_take_step(src@, mobile_pred(side), i as int);
            lemma_filter_take_step(src@, worker_pred(side), i as int);
            lemma_filter_take_step(src@, larva_pred(side), i as int);
        }
        let on_side: bool = if own {
            matches!(u.alliance, Alliance::Own)
        } else {
            matches!(u.alliance, Alliance::Enemy)
        };
        if on_side {
            r.all.push(u);
            if u.is_structure {
                if u.is_placeholder {
                    r.placeholders.push(u);
                } else {
                    r.structures.push(u);
                    if ids::is_townhall_type(u.type_id) {
                        r.townhalls.push(u);
                    } else if ids::is_gas_building_type(u.type_id) {
                        r.gas_buildings.push(u);
                    }
                }
            } else {
                r.units.push(u);
                if ids::is_worker_type(u.type_id) {
                    r.workers.push(u);
                } else if u.type_id == ids::LARVA {
                    r.larvas.push(u);
                }
            }
        }
        i = i + 1;
    }
    proof {
        lemma_take_full(src@);
    }
    r
}

/// Rebuild every categorized collection from the snapshot's units.
/// The result is a pure function of the input, so reclassifying an
/// identical snapshot yields identical collections.
pub fn classify_units(src: &Vec<Unit>) -> (r: AllUnits)
    ensures
        r.built_from(src@),
{
    let mut watchtowers: Vec<Unit> = Vec::new();
    let mut resources: Vec<Unit> = Vec::new();
    let mut mineral_fields: Vec<Unit> = Vec::new();
    let mut vespene_geysers: Vec<Unit> = Vec::new();
    let mut inhibitor_zones: Vec<Unit> = Vec::new();
    let mut destructables: Vec<Unit> = Vec::new();
    proof {
        lemma_filter_take_zero(src@, watchtower_pred());
        lemma_filter_take_zero(src@, resource_pred());
        lemma_filter_take_zero(src@, mineral_pred());
        lemma_filter_take_zero(src@, geyser_pred());
        lemma_filter_take_zero(src@, inhibitor_pred());
        lemma_filter_take_zero(src@, destructable_pred());
    }
    let n: usize = src.len();
    let mut i: usize = 0;
    while i < n
        invariant
            i <= n,
            n == src@.len(),
            watchtowers@ == src@.take(i as int).filter(watchtower_pred()),
            resources@ == src@.take(i as int).filter(resource_pred()),
            mineral_fields@ == src@.take(i as int).filter(mineral_pred()),
            vespene_geysers@ == src@.take(i as int).filter(geyser_pred()),
            inhibitor_zones@ == src@.take(i as int).filter(inhibitor_pred()),
            destructables@ == src@.take(i as int).filter(destructable_pred()),
        decreases n - i,
    {
        let u: Unit = src[i];
        proof {
            lemma_filter_take_step(src@, watchtower_pred(), i as int);
            lemma_filter_take_step(src@, resource_pred(), i as int);
            lemma_filter_take_step(src@, mineral_pred(), i as int);
            lemma_filter_take_step(src@, geyser_pred(), i as int);
            lemma_filter_take_step(src@, inhibitor_pred(), i as int);
            lemma_filter_take_step(src@, destructable_pred(), i as int);
        }
        if matches!(u.alliance, Alliance::Neutral) {
            if u.type_id == ids::XELNAGA_TOWER {
                watchtowers.push(u);
            } else if ids::is_mineral_type(u.type_id) {
                resources.push(u);
                mineral_fields.push(u);
            } else if ids::is_geyser_type(u.type_id) {
                resources.push(u);
                vespene_geysers.push(u);
            } else if ids::is_inhibitor_type(u.type_id) {
                inhibitor_zones.push(u);
            } else {
                destructables.push(u);
            }
        }
        i = i + 1;
    }
    proof {
        lemma_take_full(src@);
    }
    AllUnits {
        watchtowers,
        resources,
        mineral_fields,
        vespene_geysers,
        inhibitor_zones,
        destructables,
        my: classify_side(src, true),
        enemy: classify_side(src, false),
    }
}

/// Collect the tags of own completed tech-labs and reactors, rebuilt
/// from scratch out of the snapshot.
pub fn addon_tags(src: &Vec<Unit>) -> (r: (Vec<u64>, Vec<u64>))
    ensures
        r.0@ == src@.filter(own_techlab_pred()).map_values(|u: Unit| u.tag),
        r.1@ == src@.filter(own_reactor_pred()).map_values(|u: Unit| u.tag),
{
    let mut techlabs: Vec<u64> = Vec::new();
    let mut reactors: Vec<u64> = Vec::new();
    proof {
        lemma_filter_take_zero(src@, own_techlab_pred());
        lemma_filter_take_zero(src@, own_reactor_pred());
        assert(techlabs@ =~= src@.take(0).filter(own_techlab_pred()).map_values(
            |u: Unit| u.tag,
        ));
        assert(reactors@ =~= src@.take(0).filter(own_reactor_pred()).map_values(
            |u: Unit| u.tag,
        ));
    }
    let n: usize = src.len();
    let mut i: usize = 0;
    while i < n
        invariant
            i <= n,
            n == src@.len(),
            techlabs@ == src@.take(i as int).filter(own_techlab_pred()).map_values(
                |u: Unit| u.tag,
            ),
            reactors@ == src@.take(i as int).filter(own_reactor_pred()).map_values(
                |u: Unit| u.tag,
            ),
        decreases n - i,
    {
        let u: Unit = src[i];
        proof {
            lemma_filter_take_step(src@, own_techlab_pred(), i as int);
            lemma_filter_take_step(src@, own_reactor_pred(), i as int);
            if own_techlab_pred()(u) {
                assert(src@.take(i as int).filter(own_techlab_pred()).push(u).map_values(
                    |x: Unit| x.tag,
                ) =~= src@.take(i as int).filter(own_techlab_pred()).map_values(
                    |x: Unit| x.tag,
                ).push(u.tag));
            }
            if own_reactor_pred()(u) {
                assert(src@.take(i as int).filter(own_reactor_pred()).push(u).map_values(
                    |x: Unit| x.tag,
                ) =~= src@.take(i as int).filter(own_reactor_pred()).map_values(
                    |x: Unit| x.tag,
                ).push(u.tag));
            }
        }
        let own_done_structure: bool = matches!(u.alliance, Alliance::Own) && u.is_structure
            && !u.is_placeholder;
        if own_done_structure {
            if ids::is_techlab_type(u.type_id) {
                techlabs.push(u.tag);
            } else if ids::is_reactor_type(u.type_id) {
                reactors.push(u.tag);
            }
        }
        i = i + 1;
    }
    proof {
        lemma_take_full(src@);
    }
    (techlabs, reactors)
}

/// Two categorizations of one snapshot are identical, collection by
/// collection: classification is deterministic and reclassifying an
/// unchanged snapshot reproduces every collection exactly.
pub proof fn lemma_classification_deterministic(a: AllUnits, b: AllUnits, src: Seq<Unit>)
    requires
        a.built_from(src),
        b.built_from(src),
    ensures
        a.watchtowers@ == b.watchtowers@,
        a.resources@ == b.resources@,
        a.mineral_fields@ == b.mineral_fields@,
        a.vespene_geysers@ == b.vespene_geysers@,
        a.inhibitor_zones@ == b.inhibitor_zones@,
        a.destructables@ == b.destructables@,
        a.my.all@ == b.my.all@,
        a.my.structures@ == b.my.structures@,
        a.my.townhalls@ == b.my.townhalls@,
        a.my.gas_buildings@ == b.my.gas_buildings@,
        a.my.placeholders@ == b.my.placeholders@,
        a.my.units@ == b.my.units@,
        a.my.workers@ == b.my.workers@,
        a.my.larvas@ == b.my.larvas@,
        a.enemy.all@ == b.enemy.all@,
        a.enemy.structures@ == b.enemy.structures@,
        a.enemy.townhalls@ == b.enemy.townhalls@,
        a.enemy.gas_buildings@ == b.enemy.gas_buildings@,
        a.enemy.placeholders@ == b.enemy.placeholders@,
        a.enemy.units@ == b.enemy.units@,
        a.enemy.workers@ == b.enemy.workers@,
        a.enemy.larvas@ == b.enemy.larvas@,
{
}

} // verus!
