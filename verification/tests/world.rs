use rust_sc2::counters::compute_counters;
use rust_sc2::game_data::{Cost, GameData, UnitTypeData};
use rust_sc2::geom::Point;
use rust_sc2::unit::{Alliance, Unit, UnitOrder};
use rust_sc2::units::classify_units;
use rust_sc2::vecmap::VecMap;

fn unit(tag: u64, type_id: u32, alliance: Alliance, structure: bool, ready: bool) -> Unit {
    Unit {
        tag,
        type_id,
        alliance,
        is_structure: structure,
        is_ready: ready,
        is_placeholder: false,
        position: Point::new(1000, 1000),
        weapon_cooldown: None,
    }
}

fn snapshot() -> Vec<Unit> {
    vec![
        // Own townhall (command center), ready.
        unit(1, 18, Alliance::Own, true, true),
        // Own refinery.
        unit(2, 20, Alliance::Own, true, true),
        // Own worker and larva-free marine.
        unit(3, 45, Alliance::Own, false, true),
        unit(4, 48, Alliance::Own, false, true),
        // Enemy nexus and probe.
        unit(5, 59, Alliance::Enemy, true, true),
        unit(6, 84, Alliance::Enemy, false, true),
        // Neutral: watchtower, mineral, geyser, inhibitor, destructable.
        unit(7, 149, Alliance::Neutral, false, true),
        unit(8, 341, Alliance::Neutral, false, true),
        unit(9, 342, Alliance::Neutral, false, true),
        unit(10, 1955, Alliance::Neutral, false, true),
        unit(11, 999, Alliance::Neutral, false, true),
        // Own tech lab and reactor.
        unit(12, 37, Alliance::Own, true, true),
        unit(13, 42, Alliance::Own, true, true),
    ]
}

#[test]
fn classification_sorts_every_category() {
    let units = snapshot();
    let all = classify_units(&units);
    assert_eq!(all.watchtowers.len(), 1);
    assert_eq!(all.mineral_fields.len(), 1);
    assert_eq!(all.vespene_geysers.len(), 1);
    assert_eq!(all.resources.len(), 2);
    assert_eq!(all.inhibitor_zones.len(), 1);
    assert_eq!(all.destructables.len(), 1);
    assert_eq!(all.my.all.len(), 6);
    assert_eq!(all.my.townhalls.len(), 1);
    assert_eq!(all.my.gas_buildings.len(), 1);
    assert_eq!(all.my.structures.len(), 4);
    assert_eq!(all.my.units.len(), 2);
    assert_eq!(all.my.workers.len(), 1);
    assert_eq!(all.enemy.all.len(), 2);
    assert_eq!(all.enemy.townhalls.len(), 1);
    assert_eq!(all.enemy.workers.len(), 1);
}

#[test]
fn reclassification_is_idempotent() {
    let units = snapshot();
    let first = classify_units(&units);
    let second = classify_units(&units);
    assert!(first.same_as(&second));
    // The add-on tag lists and the counters rebuild identically too.
    let tags_a = rust_sc2::units::addon_tags(&units);
    let tags_b = rust_sc2::units::addon_tags(&units);
    assert_eq!(tags_a.0, tags_b.0);
    assert_eq!(tags_a.1, tags_b.1);
    assert_eq!(tags_a.0, vec![12]);
    assert_eq!(tags_a.1, vec![13]);
    let gd = counting_catalog();
    let orders = vec![UnitOrder { tag: 1, ability: 560 }];
    let (o1, c1) = compute_counters(&units, &orders, &gd);
    let (o2, c2) = compute_counters(&units, &orders, &gd);
    assert_eq!(o1.entries, o2.entries);
    assert_eq!(c1.entries, c2.entries);
}

#[test]
fn classification_of_empty_snapshot() {
    let units: Vec<Unit> = Vec::new();
    let all = classify_units(&units);
    assert_eq!(all.resources.len(), 0);
    assert_eq!(all.my.all.len(), 0);
    assert_eq!(all.enemy.all.len(), 0);
}

fn counting_catalog() -> GameData {
    let mut gd = GameData::new();
    // Marine (48) is produced by ability 560; barracks (21) by the
    // construction ability 321.
    gd.units.insert(
        48,
        UnitTypeData { ability: Some(560), cost: Cost { minerals: 50, vespene: 0, supply: 2 } },
    );
    gd.units.insert(
        21,
        UnitTypeData { ability: Some(321), cost: Cost { minerals: 150, vespene: 0, supply: 0 } },
    );
    gd
}

#[test]
fn unit_accounting_balances() {
    let gd = counting_catalog();
    // One ready barracks training a marine, one finished marine, one
    // barracks still under construction.
    let units = vec![
        unit(1, 21, Alliance::Own, true, true),
        unit(2, 48, Alliance::Own, false, true),
        {
            let mut u = unit(3, 21, Alliance::Own, true, false);
            u.is_ready = false;
            u
        },
    ];
    let orders = vec![UnitOrder { tag: 1, ability: 560 }];
    let (order_counts, current_counts) = compute_counters(&units, &orders, &gd);
    // current_units[marine] + orders[train-marine] equals the manual
    // ready-or-in-progress marine count: one finished, one in flight.
    assert_eq!(*current_counts.get(48).unwrap(), 1usize);
    assert_eq!(*order_counts.get(560).unwrap(), 1usize);
    // The pending barracks is one in-flight order under its own
    // construction ability.
    assert_eq!(*current_counts.get(21).unwrap(), 1usize);
    assert_eq!(*order_counts.get(321).unwrap(), 1usize);
}

#[test]
fn constructing_orders_are_not_counted() {
    let gd = counting_catalog();
    // A worker carrying a build order (ability 321 is construction).
    let units = vec![unit(1, 45, Alliance::Own, false, true)];
    let orders = vec![UnitOrder { tag: 1, ability: 321 }];
    let (order_counts, _) = compute_counters(&units, &orders, &gd);
    assert!(order_counts.get(321).is_none());
}

#[test]
fn enemy_orders_are_not_counted() {
    let gd = counting_catalog();
    let units = vec![unit(1, 48, Alliance::Enemy, false, true)];
    let orders = vec![UnitOrder { tag: 1, ability: 560 }];
    let (order_counts, current_counts) = compute_counters(&units, &orders, &gd);
    assert!(order_counts.get(560).is_none());
    assert!(current_counts.get(48).is_none());
}

#[test]
fn vecmap_keeps_one_entry_per_key() {
    let mut m: VecMap<u32> = VecMap::new();
    m.insert(7, 1);
    m.insert(7, 2);
    m.insert(9, 3);
    assert_eq!(m.len(), 2);
    assert_eq!(*m.get(7).unwrap(), 2u32);
    assert_eq!(*m.get(9).unwrap(), 3u32);
    assert!(m.get(8).is_none());
}
