use rust_sc2::bot::{
    all_successful, choose_placement, first_successful_unit, placement_ring, select_expansion,
    successful_positions, Bot, ObservationCommon, PlacementOptions,
};
use rust_sc2::game_data::{Cost, UnitTypeData};
use rust_sc2::geom::Point;
use rust_sc2::unit::{Alliance, Unit, UnitOrder};

fn catalog_bot() -> Bot {
    let mut bot = Bot::new();
    bot.game_data.units.insert(
        132,
        UnitTypeData { ability: None, cost: Cost { minerals: 550, vespene: 0, supply: 0 } },
    );
    bot.game_data.units.insert(
        105,
        UnitTypeData { ability: Some(1164), cost: Cost { minerals: 25, vespene: 0, supply: 1 } },
    );
    bot.game_data.units.insert(
        48,
        UnitTypeData { ability: Some(560), cost: Cost { minerals: 50, vespene: 0, supply: 2 } },
    );
    bot.game_data.upgrades.insert(7, Cost { minerals: 100, vespene: 100, supply: 0 });
    bot
}

#[test]
fn unit_cost_applies_the_fixed_corrections() {
    let bot = catalog_bot();
    // An orbital command costs only its morph price.
    assert_eq!(bot.get_unit_cost(132).minerals, 150);
    assert_eq!(bot.get_unit_api_cost(132).minerals, 550);
    // A zergling egg pays for the pair.
    assert_eq!(bot.get_unit_cost(105).minerals, 50);
    // An unknown type costs nothing.
    assert_eq!(bot.get_unit_cost(9999), Cost { minerals: 0, vespene: 0, supply: 0 });
}

#[test]
fn affordability_counts_half_supplies() {
    let mut bot = catalog_bot();
    bot.minerals = 60;
    bot.vespene = 0;
    // A marine costs two half-supplies, one whole supply.
    bot.supply_left = 0;
    assert!(!bot.can_afford(48, true));
    assert!(bot.can_afford(48, false));
    bot.supply_left = 1;
    assert!(bot.can_afford(48, true));
    bot.minerals = 49;
    assert!(!bot.can_afford(48, true));
}

#[test]
fn booking_costs_saturates_at_zero() {
    let mut bot = catalog_bot();
    bot.minerals = 60;
    bot.supply_used = 5;
    bot.supply_left = 3;
    bot.substract_resources(48);
    assert_eq!(bot.minerals, 10);
    assert_eq!(bot.supply_used, 6);
    assert_eq!(bot.supply_left, 2);
    bot.substract_resources(48);
    assert_eq!(bot.minerals, 0);
    bot.substract_upgrade_cost(7);
    assert_eq!(bot.minerals, 0);
    assert_eq!(bot.vespene, 0);
}

#[test]
fn upgrades_are_looked_up_in_the_snapshot_list() {
    let mut bot = catalog_bot();
    assert!(!bot.has_upgrade(7));
    bot.upgrades.push(7);
    assert!(bot.has_upgrade(7));
    assert!(bot.can_afford_upgrade(7) == false);
    bot.minerals = 100;
    bot.vespene = 100;
    assert!(bot.can_afford_upgrade(7));
}

fn unit_at(tag: u64, type_id: u32, alliance: Alliance, x: i64, y: i64, structure: bool) -> Unit {
    Unit {
        tag,
        type_id,
        alliance,
        is_structure: structure,
        is_ready: true,
        is_placeholder: false,
        position: Point::new(x, y),
        weapon_cooldown: None,
    }
}

#[test]
fn prepare_step_rebuilds_counters_and_scalars() {
    let mut bot = catalog_bot();
    let units = vec![
        unit_at(1, 18, Alliance::Own, 10_500, 10_500, true),
        unit_at(2, 48, Alliance::Own, 11_500, 10_500, false),
    ];
    let orders = vec![UnitOrder { tag: 1, ability: 560 }];
    let common = ObservationCommon {
        game_loop: 448,
        minerals: 400,
        vespene: 120,
        food_army: 2,
        food_workers: 12,
        food_cap: 23,
        food_used: 14,
    };
    bot.prepare_step(&units, &orders, common);
    assert_eq!(bot.minerals, 400);
    assert_eq!(bot.vespene, 120);
    assert_eq!(bot.supply_left, 9);
    assert_eq!(bot.game_loop, 448);
    assert_eq!(*bot.orders.get(560).unwrap(), 1usize);
    assert_eq!(*bot.current_units.get(48).unwrap(), 1usize);
    assert_eq!(bot.units.my.townhalls.len(), 1);
}

#[test]
fn cooldown_table_is_a_high_water_mark() {
    let mut bot = catalog_bot();
    let mut marine = unit_at(1, 48, Alliance::Own, 10_500, 10_500, false);
    marine.weapon_cooldown = Some(900);
    bot.update_units(&vec![marine]);
    assert_eq!(*bot.max_cooldowns.get(48).unwrap(), 900u32);
    // A lower later reading never lowers the mark.
    marine.weapon_cooldown = Some(300);
    bot.update_units(&vec![marine]);
    assert_eq!(*bot.max_cooldowns.get(48).unwrap(), 900u32);
    marine.weapon_cooldown = Some(1200);
    bot.update_units(&vec![marine]);
    assert_eq!(*bot.max_cooldowns.get(48).unwrap(), 1200u32);
}

#[test]
fn expansion_claims_filter_by_townhall_distance() {
    let mut bot = catalog_bot();
    bot.expansions = vec![
        (Point::new(10_500, 10_500), Point::new(10_000, 10_000)),
        (Point::new(60_500, 60_500), Point::new(60_000, 60_000)),
    ];
    let units = vec![
        unit_at(1, 18, Alliance::Own, 11_500, 10_500, true),
        unit_at(2, 59, Alliance::Enemy, 60_500, 59_500, true),
    ];
    bot.update_units(&units);
    let owned = bot.owned_expansions();
    assert_eq!(owned.len(), 1);
    assert_eq!(owned[0].0, Point::new(10_500, 10_500));
    let enemy = bot.enemy_expansions();
    assert_eq!(enemy.len(), 1);
    assert_eq!(enemy[0].0, Point::new(60_500, 60_500));
    assert_eq!(bot.free_expansions().len(), 0);
    // Candidates for the next own expansion exclude the claimed one.
    let cands = bot.expansion_candidates(false);
    assert_eq!(cands.len(), 1);
    assert_eq!(cands[0].0, Point::new(60_500, 60_500));
}

#[test]
fn nearest_reachable_expansion_wins() {
    let cands = vec![
        (Point::new(1000, 1000), Point::new(1000, 1000)),
        (Point::new(2000, 2000), Point::new(2000, 2000)),
        (Point::new(3000, 3000), Point::new(3000, 3000)),
    ];
    let paths = vec![None, Some(70_000i64), Some(40_000i64)];
    let chosen = select_expansion(&cands, &paths).expect("one candidate is reachable");
    assert_eq!(chosen.0, Point::new(3000, 3000));
    let unreachable = vec![None, None, None];
    assert!(select_expansion(&cands, &unreachable).is_none());
}

#[test]
fn placement_ring_walks_the_square_edge() {
    let near = Point::new(10_000, 10_000);
    let ring = placement_ring(near, 2, 2);
    // Offsets -2, 0, 2, four edge points each.
    assert_eq!(ring.len(), 12);
    assert_eq!(ring[0], Point::new(8_000, 8_000));
    assert_eq!(ring[1], Point::new(8_000, 12_000));
    assert_eq!(ring[2], Point::new(8_000, 8_000));
    assert_eq!(ring[3], Point::new(12_000, 8_000));
    assert_eq!(ring[4], Point::new(10_000, 8_000));
}

#[test]
fn placement_choice_prefers_the_nearest_valid_position() {
    let near = Point::new(10_000, 10_000);
    let positions = vec![
        Point::new(14_000, 10_000),
        Point::new(11_000, 10_000),
        Point::new(9_000, 10_000),
    ];
    let ok = vec![true, false, true];
    let valid = successful_positions(&positions, &ok);
    assert_eq!(valid, vec![Point::new(14_000, 10_000), Point::new(9_000, 10_000)]);
    let chosen = choose_placement(&valid, near, false).expect("one valid position");
    assert_eq!(chosen, Point::new(9_000, 10_000));
    assert!(choose_placement(&Vec::new(), near, false).is_none());
    assert!(!all_successful(&ok));
    assert!(all_successful(&vec![true, true]));
}

#[test]
fn random_placement_choice_stays_in_the_list() {
    // With one valid position the random pick must return it; a
    // wrapper handing back anything else would step out of range.
    let only = vec![Point::new(4_000, 5_000)];
    let chosen = choose_placement(&only, Point::new(0, 0), true).expect("non-empty list");
    assert_eq!(chosen, Point::new(4_000, 5_000));
    let several = vec![Point::new(1_000, 0), Point::new(2_000, 0), Point::new(3_000, 0)];
    for _ in 0..16 {
        let p = choose_placement(&several, Point::new(0, 0), true).unwrap();
        assert!(several.contains(&p));
    }
}

#[test]
fn gas_candidates_and_first_success() {
    let mut bot = catalog_bot();
    let units = vec![
        unit_at(1, 342, Alliance::Neutral, 10_500, 10_500, false),
        unit_at(2, 342, Alliance::Neutral, 40_500, 40_500, false),
        unit_at(3, 342, Alliance::Neutral, 12_500, 10_500, false),
    ];
    bot.update_units(&units);
    let near = bot.gas_placement_candidates(Point::new(10_000, 10_000));
    assert_eq!(near.len(), 2);
    let ok = vec![false, true];
    let picked = first_successful_unit(&near, &ok).expect("second geyser is free");
    assert_eq!(picked.tag, 3);
    assert!(first_successful_unit(&near, &vec![false, false]).is_none());
}

#[test]
fn chat_bypasses_the_aggregator() {
    let mut bot = catalog_bot();
    bot.chat(String::from("glhf"));
    assert_eq!(bot.actions.len(), 1);
    assert!(bot.commander.is_empty());
    let options = PlacementOptions::default();
    assert_eq!(options.max_distance, 15);
    assert_eq!(options.step, 2);
    bot.clear_actions();
    assert_eq!(bot.actions.len(), 0);
}
