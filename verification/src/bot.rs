//! The per-session controller state: the categorized world views and
//! counters of the current tick, the static catalog, resource and
//! supply bookkeeping, the expansion list, and the planners that the
//! placement and pathing queries are built from.

use vstd::prelude::*;
use crate::command::{collect_actions, Action, Commander};
use crate::counters::{compute_counters, spec_current_count, spec_orders_count};
use crate::expansion::{compute_expansions, DataInvariantError, ResourcePoint};
use crate::game_data::{Cost, GameData};
use crate::geom::{spec_dist_sq, Point};
use crate::grid::Grid;
use crate::ids;
use crate::session::Race;
use crate::unit::{Alliance, Unit, UnitOrder};
use crate::units::{addon_tags, classify_units, AllUnits};
use crate::util::{lemma_filter_take_step, lemma_filter_take_zero, lemma_take_full};
use crate::vecmap::{spec_count_of, raise, VecMap};

verus! {

/// Placement search tuning; the defaults match a plain building
/// placement.
#[derive(Clone, Copy, Debug)]
pub struct PlacementOptions {
    pub max_distance: i64,
    pub step: i64,
    pub random: bool,
    pub addon: bool,
}

impl Default for PlacementOptions {
    fn default() -> (r: PlacementOptions)
        ensures
            r.max_distance == 15 && r.step == 2 && !r.random && !r.addon,
    {
        PlacementOptions { max_distance: 15, step: 2, random: false, addon: false }
    }
}

/// The per-tick scalar observation values.
#[derive(Clone, Copy, Debug, PartialEq, Eq, Structural)]
pub struct ObservationCommon {
    pub game_loop: u32,
    pub minerals: u32,
    pub vespene: u32,
    pub food_army: u32,
    pub food_workers: u32,
    pub food_cap: u32,
    pub food_used: u32,
}

/// The weapon-cooldown high-water update of one reported unit.
pub open spec fn spec_cd_step(m: Map<u64, u32>, u: Unit) -> Map<u64, u32> {
    match u.weapon_cooldown {
        Some(cd) => if u.is_mine() {
            if m.contains_key(u.type_id as u64) && m[u.type_id as u64] >= cd {
                m
            } else {
                m.insert(u.type_id as u64, cd)
            }
        } else {
            m
        },
        None => m,
    }
}

/// The cooldown table after folding a whole snapshot into it.
pub open spec fn spec_cd_after(m: Map<u64, u32>, s: Seq<Unit>) -> Map<u64, u32>
    decreases s.len(),
{
    if s.len() == 0 {
        m
    } else {
        spec_cd_step(spec_cd_after(m, s.drop_last()), s.last())
    }
}

/// The cooldown table is a monotonic high-water mark: a recorded
/// value never disappears and never decreases, over any snapshot.
pub proof fn lemma_cooldown_monotonic(m: Map<u64, u32>, s: Seq<Unit>, k: u64)
    requires
        m.contains_key(k),
    ensures
        spec_cd_after(m, s).contains_key(k),
        spec_cd_after(m, s)[k] >= m[k],
    decreases s.len(),
{
    if s.len() > 0 {
        lemma_cooldown_monotonic(m, s.drop_last(), k);
    }
}

/// The controller state.
pub struct Bot {
    pub game_step: u32,
    pub race: Race,
    pub enemy_race: Race,
    pub player_id: u32,
    pub opponent_id: String,
    pub actions: Vec<Action>,
    pub commander: Commander,
    pub game_data: GameData,
    pub units: AllUnits,
    pub abilities_units: VecMap<Vec<u32>>,
    pub orders: VecMap<usize>,
    pub current_units: VecMap<usize>,
    pub game_loop: u32,
    pub minerals: u32,
    pub vespene: u32,
    pub supply_army: u32,
    pub supply_workers: u32,
    pub supply_cap: u32,
    pub supply_used: u32,
    pub supply_left: u32,
    pub start_location: Point,
    pub enemy_start: Point,
    pub start_center: Point,
    pub enemy_start_center: Point,
    pub techlab_tags: Vec<u64>,
    pub reactor_tags: Vec<u64>,
    pub expansions: Vec<(Point, Point)>,
    pub max_cooldowns: VecMap<u32>,
    pub upgrades: Vec<u32>,
    pub placement_grid: Grid,
    pub pathing_grid: Grid,
    pub terrain_height: Grid,
    pub visibility: Grid,
    pub creep: Grid,
}

impl Bot {
    /// The structural invariant of the controller state.
    pub open spec fn wf(self) -> bool {
        &&& self.commander.wf()
        &&& self.game_data.wf()
        &&& self.abilities_units.wf()
        &&& self.orders.wf()
        &&& self.current_units.wf()
        &&& self.max_cooldowns.wf()
        &&& self.max_cooldowns.entries@.len() <= 100_000_000
        &&& self.placement_grid.wf()
        &&& self.pathing_grid.wf()
        &&& self.terrain_height.wf()
        &&& self.visibility.wf()
        &&& self.creep.wf()
    }

    /// A fresh controller: one-step pacing, random races, and every
    /// collection empty.
    pub fn new() -> (r: Bot)
        ensures
            r.wf(),
            r.game_step == 1,
            r.race is Random && r.enemy_race is Random,
            r.player_id == 0,
            r.actions@.len() == 0,
            r.commander@.len() == 0,
            r.expansions@.len() == 0,
            r.orders@ == Map::<u64, usize>::empty(),
            r.current_units@ == Map::<u64, usize>::empty(),
            r.max_cooldowns@ == Map::<u64, u32>::empty(),
    {
        Bot {
            game_step: 1,
            race: Race::Random,
            enemy_race: Race::Random,
            player_id: 0,
            opponent_id: String::new(),
            actions: Vec::new(),
            commander: Commander::new(),
            game_data: GameData::new(),
            units: AllUnits::empty(),
            abilities_units: VecMap::new(),
            orders: VecMap::new(),
            current_units: VecMap::new(),
            game_loop: 0,
            minerals: 0,
            vespene: 0,
            supply_army: 0,
            supply_workers: 0,
            supply_cap: 0,
            supply_used: 0,
            supply_left: 0,
            start_location: Point::new(0, 0),
            enemy_start: Point::new(0, 0),
            start_center: Point::new(0, 0),
            enemy_start_center: Point::new(0, 0),
            techlab_tags: Vec::new(),
            reactor_tags: Vec::new(),
            expansions: Vec::new(),
            max_cooldowns: VecMap::new(),
            upgrades: Vec::new(),
            placement_grid: Grid::default(),
            pathing_grid: Grid::default(),
            terrain_height: Grid::default(),
            visibility: Grid::default(),
            creep: Grid::default(),
        }
    }

    /// The catalog cost of a unit type; zero of an unknown type.
    pub open spec fn spec_unit_api_cost(self, unit: u32) -> Cost {
        if self.game_data.units@.contains_key(unit as u64) {
            self.game_data.units@[unit as u64].cost
        } else {
            Cost { minerals: 0, vespene: 0, supply: 0 }
        }
    }

    pub fn get_unit_api_cost(&self, unit: u32) -> (c: Cost)
        requires
            self.wf(),
        ensures
            c == self.spec_unit_api_cost(unit),
    {
        match self.game_data.units.get(unit as u64) {
            Some(data) => data.cost,
            None => Cost::zero(),
        }
    }

    /// The practical cost of a unit type: the catalog cost with the
    /// morph and add-on corrections applied (an upgraded townhall or
    /// add-on does not re-pay its base structure; a paired-unit egg
    /// pays for both).
    pub open spec fn spec_unit_cost(self, unit: u32) -> Cost {
        let c = self.spec_unit_api_cost(unit);
        if !self.game_data.units@.contains_key(unit as u64) {
            c
        } else if unit == ids::ORBITAL_COMMAND {
            Cost { minerals: 150, vespene: c.vespene, supply: c.supply }
        } else if unit == ids::REACTOR {
            Cost { minerals: 50, vespene: 50, supply: c.supply }
        } else if unit == ids::TECHLAB {
            Cost { minerals: 50, vespene: 25, supply: c.supply }
        } else if unit == ids::ZERGLING {
            Cost {
                minerals: if c.minerals > 0x7fff_ffff {
                    0xffff_ffffu32
                } else {
                    (2 * c.minerals) as u32
                },
                vespene: c.vespene,
                supply: c.supply,
            }
        } else {
            c
        }
    }

    pub fn get_unit_cost(&self, unit: u32) -> (c: Cost)
        requires
            self.wf(),
        ensures
            c == self.spec_unit_cost(unit),
    {
        let mut c: Cost = match self.game_data.units.get(unit as u64) {
            Some(data) => data.cost,
            None => {
                return Cost::zero();
            },
        };
        if unit == ids::ORBITAL_COMMAND {
            c.minerals = 150;
        } else if unit == ids::REACTOR {
            c.minerals = 50;
            c.vespene = 50;
        } else if unit == ids::TECHLAB {
            c.minerals = 50;
            c.vespene = 25;
        } else if unit == ids::ZERGLING {
            c.minerals = if c.minerals > 0x7fff_ffff {
                0xffff_ffffu32
            } else {
                2 * c.minerals
            };
        }
        c
    }

    /// Whether the bank covers a unit's cost; with `check_supply` the
    /// remaining supply (in half-supply units) must cover it too.
    pub open spec fn spec_can_afford(self, unit: u32, check_supply: bool) -> bool {
        let c = self.spec_unit_cost(unit);
        self.minerals >= c.minerals && self.vespene >= c.vespene && (check_supply
            ==> 2 * self.supply_left >= c.supply)
    }

    pub fn can_afford(&self, unit: u32, check_supply: bool) -> (r: bool)
        requires
            self.wf(),
        ensures
            r == self.spec_can_afford(unit, check_supply),
    {
        let c: Cost = self.get_unit_cost(unit);
        if self.minerals < c.minerals || self.vespene < c.vespene {
            return false;
        }
        if check_supply && 2 * (self.supply_left as u64) < (c.supply as u64) {
            return false;
        }
        true
    }

    /// The catalog cost of an upgrade; zero of an unknown one.
    pub open spec fn spec_upgrade_cost(self, upgrade: u32) -> Cost {
        if self.game_data.upgrades@.contains_key(upgrade as u64) {
            self.game_data.upgrades@[upgrade as u64]
        } else {
            Cost { minerals: 0, vespene: 0, supply: 0 }
        }
    }

    pub fn get_upgrade_cost(&self, upgrade: u32) -> (c: Cost)
        requires
            self.wf(),
        ensures
            c == self.spec_upgrade_cost(upgrade),
    {
        match self.game_data.upgrades.get(upgrade as u64) {
            Some(c) => *c,
            None => Cost::zero(),
        }
    }

    pub fn can_afford_upgrade(&self, upgrade: u32) -> (r: bool)
        requires
            self.wf(),
        ensures
            r == (self.minerals >= self.spec_upgrade_cost(upgrade).minerals && self.vespene
                >= self.spec_upgrade_cost(upgrade).vespene),
    {
        let c: Cost = self.get_upgrade_cost(upgrade);
        self.minerals >= c.minerals && self.vespene >= c.vespene
    }

    /// Book a unit's cost out of the bank: minerals and vespene
    /// saturate at zero, supply moves by whole supplies.
    pub fn substract_resources(&mut self, unit: u32)
        requires
            old(self).wf(),
        ensures
            final(self).wf(),
            final(self).minerals == sat_sub(old(self).minerals, old(self).spec_unit_cost(
                unit,
            ).minerals),
            final(self).vespene == sat_sub(old(self).vespene, old(self).spec_unit_cost(
                unit,
            ).vespene),
            final(self).supply_used == sat_add(old(self).supply_used, old(
                self,
            ).spec_unit_cost(unit).supply / 2),
            final(self).supply_left == sat_sub(old(self).supply_left, old(
                self,
            ).spec_unit_cost(unit).supply / 2),
            final(self).game_data == old(self).game_data,
    {
        let c: Cost = self.get_unit_cost(unit);
        self.minerals = if self.minerals >= c.minerals {
            self.minerals - c.minerals
        } else {
            0
        };
        self.vespene = if self.vespene >= c.vespene {
            self.vespene - c.vespene
        } else {
            0
        };
        let supply_cost: u32 = c.supply / 2;
        self.supply_used = if self.supply_used <= 0xffff_ffffu32 - supply_cost {
            self.supply_used + supply_cost
        } else {
            0xffff_ffffu32
        };
        self.supply_left = if self.supply_left >= supply_cost {
            self.supply_left - supply_cost
        } else {
            0
        };
    }

    /// Book an upgrade's cost out of the bank.
    pub fn substract_upgrade_cost(&mut self, upgrade: u32)
        requires
            old(self).wf(),
        ensures
            final(self).wf(),
            final(self).minerals == sat_sub(old(self).minerals, old(self).spec_upgrade_cost(
                upgrade,
            ).minerals),
            final(self).vespene == sat_sub(old(self).vespene, old(self).spec_upgrade_cost(
                upgrade,
            ).vespene),
            final(self).game_data == old(self).game_data,
    {
        let c: Cost = self.get_upgrade_cost(upgrade);
        self.minerals = if self.minerals >= c.minerals {
            self.minerals - c.minerals
        } else {
            0
        };
        self.vespene = if self.vespene >= c.vespene {
            self.vespene - c.vespene
        } else {
            0
        };
    }

    /// Whether the snapshot reported the upgrade as finished.
    pub fn has_upgrade(&self, upgrade: u32) -> (r: bool)
        ensures
            r == self.upgrades@.contains(upgrade),
    {
        let n: usize = self.upgrades.len();
        let mut i: usize = 0;
        while i < n
            invariant
                i <= n,
                n == self.upgrades@.len(),
                forall|j: int| 0 <= j < i ==> self.upgrades@[j] != upgrade,
            decreases n - i,
        {
            if self.upgrades[i] == upgrade {
                return true;
            }
            i = i + 1;
        }
        proof {
            assert(!self.upgrades@.contains(upgrade));
        }
        false
    }

    /// Queue a chat line; chat bypasses order aggregation.
    pub fn chat(&mut self, message: String)
        ensures
            final(self).actions@.len() == old(self).actions@.len() + 1,
            final(self).actions@.last()@ == crate::command::ActionView::Chat(message@, false),
            forall|i: int|
                0 <= i < old(self).actions@.len() ==> final(self).actions@[i] == old(
                    self,
                ).actions@[i],
            final(self).commander == old(self).commander,
    {
        self.actions.push(Action::Chat(message, false));
    }

    /// Record one unit order into the tick's batch.
    pub fn command(&mut self, tag: u64, ability: u32, target: crate::command::Target, queue: bool)
        requires
            old(self).commander.wf(),
            old(self).commander.commands@.len() < usize::MAX,
        ensures
            final(self).commander.wf(),
            final(self).commander@ == crate::command::apply_one(
                old(self).commander@,
                (ability, target, queue),
                tag,
            ),
            final(self).actions == old(self).actions,
    {
        self.commander.command(tag, ability, target, queue);
    }

    /// The flush image: pending plain actions, then one batched
    /// action per distinct order key.
    pub fn get_actions(&self) -> (r: Vec<Action>)
        requires
            self.commander.wf(),
        ensures
            r@.len() == self.actions@.len() + self.commander@.len(),
            forall|i: int|
                0 <= i < self.actions@.len() ==> #[trigger] r@[i]@ == self.actions@[i]@,
            forall|j: int|
                0 <= j < self.commander@.len() ==> #[trigger] r@[self.actions@.len() + j]@
                    == crate::command::ActionView::UnitCommand(
                    self.commander@[j].0.0,
                    self.commander@[j].0.1,
                    self.commander@[j].1,
                    self.commander@[j].0.2,
                ),
    {
        collect_actions(&self.actions, &self.commander)
    }

    /// Clear both pending actions and the order batch,
    /// unconditionally.
    pub fn clear_actions(&mut self)
        ensures
            final(self).actions@.len() == 0,
            final(self).commander.wf(),
            final(self).commander@.len() == 0,
    {
        self.actions.clear();
        self.commander.clear();
    }

    pub fn get_height(&self, pos: (usize, usize)) -> (h: u8)
        requires
            self.wf(),
            self.terrain_height.spec_in_bounds(pos.0 as int, pos.1 as int),
        ensures
            h == self.terrain_height.spec_at(pos.0 as int, pos.1 as int),
    {
        self.terrain_height.get(pos.0, pos.1)
    }

    pub fn is_placeable(&self, pos: (usize, usize)) -> (r: bool)
        requires
            self.wf(),
            self.placement_grid.spec_in_bounds(pos.0 as int, pos.1 as int),
        ensures
            r == (self.placement_grid.spec_at(pos.0 as int, pos.1 as int) == 0),
    {
        self.placement_grid.is_free(pos.0, pos.1)
    }

    pub fn is_pathable(&self, pos: (usize, usize)) -> (r: bool)
        requires
            self.wf(),
            self.pathing_grid.spec_in_bounds(pos.0 as int, pos.1 as int),
        ensures
            r == (self.pathing_grid.spec_at(pos.0 as int, pos.1 as int) == 0),
    {
        self.pathing_grid.is_free(pos.0, pos.1)
    }

    pub fn is_hidden(&self, pos: (usize, usize)) -> (r: bool)
        requires
            self.wf(),
            self.visibility.spec_in_bounds(pos.0 as int, pos.1 as int),
        ensures
            r == (self.visibility.spec_at(pos.0 as int, pos.1 as int) == 0),
    {
        self.visibility.get(pos.0, pos.1) == 0
    }

    pub fn is_fogged(&self, pos: (usize, usize)) -> (r: bool)
        requires
            self.wf(),
            self.visibility.spec_in_bounds(pos.0 as int, pos.1 as int),
        ensures
            r == (self.visibility.spec_at(pos.0 as int, pos.1 as int) == 1),
    {
        self.visibility.get(pos.0, pos.1) == 1
    }

    pub fn is_visible(&self, pos: (usize, usize)) -> (r: bool)
        requires
            self.wf(),
            self.visibility.spec_in_bounds(pos.0 as int, pos.1 as int),
        ensures
            r == (self.visibility.spec_at(pos.0 as int, pos.1 as int) == 2),
    {
        self.visibility.get(pos.0, pos.1) == 2
    }

    pub fn is_full_hidden(&self, pos: (usize, usize)) -> (r: bool)
        requires
            self.wf(),
            self.visibility.spec_in_bounds(pos.0 as int, pos.1 as int),
        ensures
            r == (self.visibility.spec_at(pos.0 as int, pos.1 as int) == 3),
    {
        self.visibility.get(pos.0, pos.1) == 3
    }

    /// Explored ground: fogged or currently visible.
    pub fn is_explored(&self, pos: (usize, usize)) -> (r: bool)
        requires
            self.wf(),
            self.visibility.spec_in_bounds(pos.0 as int, pos.1 as int),
        ensures
            r == (self.visibility.spec_at(pos.0 as int, pos.1 as int) == 1
                || self.visibility.spec_at(pos.0 as int, pos.1 as int) == 2),
    {
        let v: u8 = self.visibility.get(pos.0, pos.1);
        v == 1 || v == 2
    }

    /// Reports whether the creep layer's cell is clear.
    pub fn has_creep(&self, pos: (usize, usize)) -> (r: bool)
        requires
            self.wf(),
            self.creep.spec_in_bounds(pos.0 as int, pos.1 as int),
        ensures
            r == (self.creep.spec_at(pos.0 as int, pos.1 as int) == 0),
    {
        self.creep.is_free(pos.0, pos.1)
    }

    /// Rebuild every categorized view, the add-on tag lists and the
    /// cooldown high-water table from the snapshot's units.
    pub fn update_units(&mut self, units: &Vec<Unit>)
        requires
            old(self).wf(),
            units@.len() <= 60_000,
            old(self).max_cooldowns.entries@.len() <= 1_000_000,
        ensures
            final(self).wf(),
            final(self).units.built_from(units@),
            final(self).techlab_tags@ == units@.filter(crate::units::own_techlab_pred())
                .map_values(|u: Unit| u.tag),
            final(self).reactor_tags@ == units@.filter(crate::units::own_reactor_pred())
                .map_values(|u: Unit| u.tag),
            final(self).max_cooldowns@ == spec_cd_after(old(self).max_cooldowns@, units@),
            final(self).game_data == old(self).game_data,
            final(self).orders == old(self).orders,
            final(self).current_units == old(self).current_units,
            final(self).actions == old(self).actions,
            final(self).commander == old(self).commander,
            final(self).expansions == old(self).expansions,
            final(self).minerals == old(self).minerals,
            final(self).vespene == old(self).vespene,
            final(self).supply_left == old(self).supply_left,
            final(self).placement_grid == old(self).placement_grid,
            final(self).start_location == old(self).start_location,
            final(self).start_center == old(self).start_center,
            final(self).enemy_start == old(self).enemy_start,
            final(self).enemy_start_center == old(self).enemy_start_center,
    {
        self.units = classify_units(units);
        let tags: (Vec<u64>, Vec<u64>) = addon_tags(units);
        self.techlab_tags = tags.0;
        self.reactor_tags = tags.1;
        let mut cds: VecMap<u32> = VecMap::new();
        std::mem::swap(&mut self.max_cooldowns, &mut cds);
        let n: usize = units.len();
        let mut i: usize = 0;
        let ghost cd0 = cds@;
        let ghost cd0_len = cds.entries@.len();
        while i < n
            invariant
                i <= n,
                n == units@.len() <= 60_000,
                cds.wf(),
                cds.entries@.len() <= cd0_len + i,
                cd0_len <= 1_000_000,
                cds@ == spec_cd_after(cd0, units@.take(i as int)),
            decreases n - i,
        {
            let u: Unit = units[i];
            proof {
                assert(units@.take(i as int + 1).drop_last() =~= units@.take(i as int));
                assert(units@.take(i as int + 1).last() == u);
            }
            let on_own: bool = matches!(u.alliance, Alliance::Own);
            if on_own {
                match u.weapon_cooldown {
                    Some(cd) => {
                        raise(&mut cds, u.type_id as u64, cd);
                    },
                    None => {},
                }
            }
            i = i + 1;
        }
        proof {
            lemma_take_full(units@);
        }
        self.max_cooldowns = cds;
    }
}

/// Saturating subtraction on 32-bit counters.
pub open spec fn sat_sub(a: u32, b: u32) -> u32 {
    if a >= b {
        (a - b) as u32
    } else {
        0
    }
}

/// Saturating addition on 32-bit counters.
pub open spec fn sat_add(a: u32, b: u32) -> u32 {
    if a + b <= 0xffff_ffff {
        (a + b) as u32
    } else {
        0xffff_ffffu32
    }
}

impl Bot {
    /// Rebuild the whole per-tick state from a snapshot: categorized
    /// views, add-on tags, cooldown table, both counter maps, and the
    /// scalar observation values.
    pub fn prepare_step(&mut self, units: &Vec<Unit>, entries: &Vec<UnitOrder>, common: ObservationCommon)
        requires
            old(self).wf(),
            old(self).max_cooldowns.entries@.len() <= 1_000_000,
            units@.len() <= 60_000,
            entries@.len() <= 60_000,
        ensures
            final(self).wf(),
            final(self).units.built_from(units@),
            final(self).max_cooldowns@ == spec_cd_after(old(self).max_cooldowns@, units@),
            forall|a: u32|
                spec_count_of(final(self).orders@, a as u64) == spec_orders_count(
                    units@,
                    entries@,
                    old(self).game_data,
                    a,
                ),
            forall|t: u32|
                spec_count_of(final(self).current_units@, t as u64) == spec_current_count(
                    units@,
                    t,
                ),
            final(self).game_loop == common.game_loop,
            final(self).minerals == common.minerals,
            final(self).vespene == common.vespene,
            final(self).supply_army == common.food_army,
            final(self).supply_workers == common.food_workers,
            final(self).supply_cap == common.food_cap,
            final(self).supply_used == common.food_used,
            final(self).supply_left == sat_sub(common.food_cap, common.food_used),
            final(self).game_data == old(self).game_data,
            final(self).expansions == old(self).expansions,
            final(self).actions == old(self).actions,
            final(self).commander == old(self).commander,
    {
        self.update_units(units);
        let counters: (VecMap<usize>, VecMap<usize>) = compute_counters(
            units,
            entries,
            &self.game_data,
        );
        self.orders = counters.0;
        self.current_units = counters.1;
        self.game_loop = common.game_loop;
        self.minerals = common.minerals;
        self.vespene = common.vespene;
        self.supply_army = common.food_army;
        self.supply_workers = common.food_workers;
        self.supply_cap = common.food_cap;
        self.supply_used = common.food_used;
        self.supply_left = if common.food_cap >= common.food_used {
            common.food_cap - common.food_used
        } else {
            0
        };
    }
}

/// A position on the map and within 4500 tiles.
pub open spec fn on_map_pred() -> spec_fn(Unit) -> bool {
    |u: Unit| 0 <= u.position.x <= 4_500_000 && 0 <= u.position.y <= 4_500_000
}

/// Every unit's position is on the map and within 4500 tiles.
pub open spec fn all_units_on_map(s: Seq<Unit>) -> bool {
    forall|i: int| 0 <= i < s.len() ==> #[trigger] on_map_pred()(s[i])
}

/// The resources the expansion analysis clusters: every mineral or
/// geyser except the oversized mineral-field variant.
pub open spec fn analysis_resource_pred() -> spec_fn(Unit) -> bool {
    |u: Unit|
        u.is_neutral() && (ids::spec_is_mineral_type(u.type_id) || ids::spec_is_geyser_type(
            u.type_id,
        )) && u.type_id != ids::MINERAL_FIELD_450
}

pub open spec fn spec_resource_points(units: Seq<Unit>) -> Seq<ResourcePoint> {
    units.filter(analysis_resource_pred()).map_values(
        |u: Unit|
            ResourcePoint {
                pos: u.position,
                tag: u.tag,
                is_geyser: ids::spec_is_geyser_type(u.type_id),
            },
    )
}

/// Collect the resources the expansion analysis clusters.
fn collect_resource_points(units: &Vec<Unit>) -> (r: Vec<ResourcePoint>)
    ensures
        r@ == spec_resource_points(units@),
        r@.len() <= units@.len(),
{
    let mut r: Vec<ResourcePoint> = Vec::new();
    let n: usize = units.len();
    let mut i: usize = 0;
    proof {
        lemma_filter_take_zero(units@, analysis_resource_pred());
        assert(r@ =~= units@.take(0).filter(analysis_resource_pred()).map_values(
            |u: Unit|
                ResourcePoint {
                    pos: u.position,
                    tag: u.tag,
                    is_geyser: ids::spec_is_geyser_type(u.type_id),
                },
        ));
    }
    while i < n
        invariant
            i <= n,
            n == units@.len(),
            r@ == units@.take(i as int).filter(analysis_resource_pred()).map_values(
                |u: Unit|
                    ResourcePoint {
                        pos: u.position,
                        tag: u.tag,
                        is_geyser: ids::spec_is_geyser_type(u.type_id),
                    },
            ),
            r@.len() <= i,
        decreases n - i,
    {
        let u: Unit = units[i];
        proof {
            lemma_filter_take_step(units@, analysis_resource_pred(), i as int);
            if analysis_resource_pred()(u) {
                assert(units@.take(i as int).filter(analysis_resource_pred()).push(u)
                    .map_values(
                    |x: Unit|
                        ResourcePoint {
                            pos: x.position,
                            tag: x.tag,
                            is_geyser: ids::spec_is_geyser_type(x.type_id),
                        },
                ) =~= units@.take(i as int).filter(analysis_resource_pred()).map_values(
                    |x: Unit|
                        ResourcePoint {
                            pos: x.position,
                            tag: x.tag,
                            is_geyser: ids::spec_is_geyser_type(x.type_id),
                        },
                ).push(
                    ResourcePoint {
                        pos: u.position,
                        tag: u.tag,
                        is_geyser: ids::spec_is_geyser_type(u.type_id),
                    },
                ));
                units@.take(i as int).lemma_filter_len(analysis_resource_pred());
            }
        }
        let keep: bool = matches!(u.alliance, Alliance::Neutral) && (ids::is_mineral_type(
            u.type_id,
        ) || ids::is_geyser_type(u.type_id)) && u.type_id != ids::MINERAL_FIELD_450;
        if keep {
            r.push(
                ResourcePoint {
                    pos: u.position,
                    tag: u.tag,
                    is_geyser: ids::is_geyser_type(u.type_id),
                },
            );
        }
        i = i + 1;
    }
    proof {
        lemma_take_full(units@);
    }
    r
}

/// A unit within (strictly) the squared radius of `center`.
pub open spec fn close_pred(center: Point, radius_sq: int) -> spec_fn(Unit) -> bool {
    |u: Unit| spec_dist_sq(u.position, center) < radius_sq
}

/// The units strictly within the radius, in order.
fn units_within(units: &Vec<Unit>, center: Point, radius_sq: i64) -> (r: Vec<Unit>)
    requires
        all_units_on_map(units@),
        -8_000_000 <= center.x <= 8_000_000 && -8_000_000 <= center.y <= 8_000_000,
    ensures
        r@ == units@.filter(close_pred(center, radius_sq as int)),
        r@.len() <= units@.len(),
        all_units_on_map(r@),
{
    let mut r: Vec<Unit> = Vec::new();
    let n: usize = units.len();
    let mut i: usize = 0;
    proof {
        lemma_filter_take_zero(units@, close_pred(center, radius_sq as int));
    }
    while i < n
        invariant
            i <= n,
            n == units@.len(),
            all_units_on_map(units@),
            -8_000_000 <= center.x <= 8_000_000 && -8_000_000 <= center.y <= 8_000_000,
            r@ == units@.take(i as int).filter(close_pred(center, radius_sq as int)),
            r@.len() <= i,
            all_units_on_map(r@),
        decreases n - i,
    {
        let u: Unit = units[i];
        proof {
            lemma_filter_take_step(units@, close_pred(center, radius_sq as int), i as int);
            assert(on_map_pred()(units@[i as int]));
        }
        let d: i64 = u.position.distance_squared(center);
        if d < radius_sq {
            r.push(u);
        }
        i = i + 1;
    }
    proof {
        lemma_take_full(units@);
    }
    r
}

/// The mean of the units' positions together with one extra point.
pub open spec fn spec_units_sum_x(s: Seq<Unit>) -> int
    decreases s.len(),
{
    if s.len() == 0 {
        0
    } else {
        spec_units_sum_x(s.drop_last()) + s.last().position.x
    }
}

pub open spec fn spec_units_sum_y(s: Seq<Unit>) -> int
    decreases s.len(),
{
    if s.len() == 0 {
        0
    } else {
        spec_units_sum_y(s.drop_last()) + s.last().position.y
    }
}

/// The start resource center: the mean of the nearby resources'
/// positions and the base location itself.
pub open spec fn spec_resource_center(s: Seq<Unit>, extra: Point) -> Point {
    let n1 = s.len() as int + 1;
    Point {
        x: ((spec_units_sum_x(s) + extra.x) / n1) as i64,
        y: ((spec_units_sum_y(s) + extra.y) / n1) as i64,
    }
}

/// Compute the mean of the positions plus one extra point.
fn resource_center(s: &Vec<Unit>, extra: Point) -> (r: Point)
    requires
        s@.len() <= 60_000,
        all_units_on_map(s@),
        0 <= extra.x <= 4_500_000 && 0 <= extra.y <= 4_500_000,
    ensures
        r == spec_resource_center(s@, extra),
        0 <= r.x <= 4_500_000 && 0 <= r.y <= 4_500_000,
{
    let n: usize = s.len();
    let mut sx: i64 = 0;
    let mut sy: i64 = 0;
    let mut i: usize = 0;
    while i < n
        invariant
            i <= n,
            n == s@.len() <= 60_000,
            all_units_on_map(s@),
            sx == spec_units_sum_x(s@.take(i as int)),
            sy == spec_units_sum_y(s@.take(i as int)),
            0 <= sx <= i * 4_500_000,
            0 <= sy <= i * 4_500_000,
        decreases n - i,
    {
        let u: Unit = s[i];
        proof {
            assert(s@.take(i as int + 1).drop_last() =~= s@.take(i as int));
            assert(s@.take(i as int + 1).last() == s@[i as int]);
            assert(on_map_pred()(s@[i as int]));
        }
        sx = sx + u.position.x;
        sy = sy + u.position.y;
        i = i + 1;
    }
    proof {
        assert(s@.take(n as int) =~= s@);
        vstd::arithmetic::div_mod::lemma_div_pos_is_pos(sx + extra.x, n as int + 1);
        vstd::arithmetic::div_mod::lemma_div_pos_is_pos(sy + extra.y, n as int + 1);
        vstd::arithmetic::div_mod::lemma_div_is_ordered(
            sx + extra.x,
            (n as int + 1) * 4_500_000,
            n as int + 1,
        );
        vstd::arithmetic::div_mod::lemma_div_is_ordered(
            sy + extra.y,
            (n as int + 1) * 4_500_000,
            n as int + 1,
        );
        vstd::arithmetic::div_mod::lemma_div_multiples_vanish(4_500_000, n as int + 1);
        assert(sx + extra.x <= (n as int + 1) * 4_500_000) by (nonlinear_arith)
            requires
                0 <= sx <= (n as int) * 4_500_000 && 0 <= extra.x <= 4_500_000,
        ;
        assert(sy + extra.y <= (n as int + 1) * 4_500_000) by (nonlinear_arith)
            requires
                0 <= sy <= (n as int) * 4_500_000 && 0 <= extra.y <= 4_500_000,
        ;
    }
    Point::new((sx + extra.x) / (n as i64 + 1), (sy + extra.y) / (n as i64 + 1))
}

impl Bot {
    /// One-time game-start preparation: classify the first snapshot,
    /// fix the start locations and resource centers, and compute the
    /// expansion list from the clustered resources. Fails only when a
    /// resource cluster admits no legal placement, which violates the
    /// map-data invariant.
    pub fn prepare_start(&mut self, units: &Vec<Unit>, enemy_start: Point) -> (r: Result<
        (),
        DataInvariantError,
    >)
        requires
            old(self).wf(),
            old(self).max_cooldowns.entries@.len() <= 1_000_000,
            units@.len() <= 10_000,
            all_units_on_map(units@),
            units@.filter(crate::units::townhall_pred(Alliance::Own)).len() > 0,
            0 <= enemy_start.x <= 4_500_000 && 0 <= enemy_start.y <= 4_500_000,
        ensures
            final(self).wf(),
            final(self).units.built_from(units@),
            final(self).start_location == units@.filter(
                crate::units::townhall_pred(Alliance::Own),
            )[0].position,
            final(self).enemy_start == enemy_start,
            final(self).start_center == spec_resource_center(
                units@.filter(crate::units::resource_pred()).filter(
                    close_pred(final(self).start_location, 121_000_000),
                ),
                final(self).start_location,
            ),
            final(self).enemy_start_center == spec_resource_center(
                units@.filter(crate::units::resource_pred()).filter(
                    close_pred(enemy_start, 121_000_000),
                ),
                enemy_start,
            ),
            ({
                let results = crate::expansion::spec_group_results(
                    spec_resource_points(units@),
                    old(self).placement_grid,
                    final(self).start_location,
                    final(self).start_center,
                    enemy_start,
                    final(self).enemy_start_center,
                );
                match r {
                    Ok(_) => final(self).expansions@.len() == results.len() && forall|g: int|
                        0 <= g < results.len() ==> results[g] == Some(
                            #[trigger] final(self).expansions@[g],
                        ),
                    Err(_) => exists|g: int| 0 <= g < results.len() && results[g] is None,
                }
            }),
    {
        self.update_units(units);
        proof {
            crate::util::lemma_filter_preserves(
                units@,
                crate::units::townhall_pred(Alliance::Own),
                on_map_pred(),
            );
            assert(on_map_pred()(units@.filter(crate::units::townhall_pred(Alliance::Own))[0]));
            crate::util::lemma_filter_preserves(units@, crate::units::resource_pred(),
                on_map_pred());
            assert forall|i: int|
                0 <= i < self.units.resources@.len() implies #[trigger] on_map_pred()(
                self.units.resources@[i]) by {
                assert(on_map_pred()(units@.filter(crate::units::resource_pred())[i]));
            }
            units@.lemma_filter_len(crate::units::resource_pred());
        }
        let start_location: Point = self.units.my.townhalls[0].position;
        self.start_location = start_location;
        self.enemy_start = enemy_start;
        let near_mine: Vec<Unit> = units_within(&self.units.resources, start_location,
            121_000_000);
        self.start_center = resource_center(&near_mine, start_location);
        let near_enemy: Vec<Unit> = units_within(&self.units.resources, enemy_start,
            121_000_000);
        self.enemy_start_center = resource_center(&near_enemy, enemy_start);
        let rpoints: Vec<ResourcePoint> = collect_resource_points(units);
        proof {
            crate::util::lemma_filter_preserves(units@, analysis_resource_pred(),
                on_map_pred());
            assert forall|i: int| 0 <= i < rpoints@.len() implies #[trigger]
                crate::expansion::res_wf(rpoints@[i]) by {
                let f = units@.filter(analysis_resource_pred());
                assert(on_map_pred()(f[i]));
                assert(rpoints@[i].pos == f[i].position);
            }
        }
        match compute_expansions(
            &rpoints,
            &self.placement_grid,
            start_location,
            self.start_center,
            enemy_start,
            self.enemy_start_center,
        ) {
            Ok(v) => {
                self.expansions = v;
                Ok(())
            },
            Err(e) => Err(e),
        }
    }
}

/// An expansion location with some listed townhall strictly within
/// the claim radius.
pub open spec fn claimed_pred(ths: Seq<Unit>, radius_sq: int) -> spec_fn((Point, Point)) -> bool {
    |e: (Point, Point)|
        exists|i: int|
            0 <= i < ths.len() && spec_dist_sq((#[trigger] ths[i]).position, e.0) < radius_sq
}

/// An expansion location with every listed townhall strictly beyond
/// the claim radius.
pub open spec fn unclaimed_pred(ths: Seq<Unit>, radius_sq: int) -> spec_fn((Point, Point)) -> bool {
    |e: (Point, Point)|
        forall|i: int|
            0 <= i < ths.len() ==> spec_dist_sq((#[trigger] ths[i]).position, e.0) > radius_sq
}

/// Expansions free of both sides' townhalls.
pub open spec fn free_pred(own: Seq<Unit>, enemy: Seq<Unit>, radius_sq: int) -> spec_fn(
    (Point, Point),
) -> bool {
    |e: (Point, Point)|
        unclaimed_pred(own, radius_sq)(e) && unclaimed_pred(enemy, radius_sq)(e)
}

/// Squared claim radius of a townhall over an expansion: 15 tiles.
pub const EXPANSION_CLAIM_SQ: i64 = 225_000_000;

/// Expansion coordinates stay within the map band.
pub open spec fn exps_on_map(s: Seq<(Point, Point)>) -> bool {
    forall|i: int|
        0 <= i < s.len() ==> -8_000_000 <= (#[trigger] s[i]).0.x <= 8_000_000 && -8_000_000
            <= s[i].0.y <= 8_000_000
}

/// Whether some unit of the list stands strictly within the radius.
fn any_within(units: &Vec<Unit>, p: Point, radius_sq: i64) -> (r: bool)
    requires
        all_units_on_map(units@),
        -8_000_000 <= p.x <= 8_000_000 && -8_000_000 <= p.y <= 8_000_000,
    ensures
        r == exists|i: int|
            0 <= i < units@.len() && spec_dist_sq((#[trigger] units@[i]).position, p)
                < radius_sq,
{
    let n: usize = units.len();
    let mut i: usize = 0;
    while i < n
        invariant
            i <= n,
            n == units@.len(),
            all_units_on_map(units@),
            -8_000_000 <= p.x <= 8_000_000 && -8_000_000 <= p.y <= 8_000_000,
            forall|j: int|
                0 <= j < i ==> spec_dist_sq((#[trigger] units@[j]).position, p) >= radius_sq,
        decreases n - i,
    {
        proof {
            assert(on_map_pred()(units@[i as int]));
        }
        let d: i64 = units[i].position.distance_squared(p);
        if d < radius_sq {
            return true;
        }
        i = i + 1;
    }
    false
}

/// Whether every unit of the list stands strictly beyond the radius.
fn all_beyond(units: &Vec<Unit>, p: Point, radius_sq: i64) -> (r: bool)
    requires
        all_units_on_map(units@),
        -8_000_000 <= p.x <= 8_000_000 && -8_000_000 <= p.y <= 8_000_000,
    ensures
        r == forall|i: int|
            0 <= i < units@.len() ==> spec_dist_sq((#[trigger] units@[i]).position, p)
                > radius_sq,
{
    let n: usize = units.len();
    let mut i: usize = 0;
    while i < n
        invariant
            i <= n,
            n == units@.len(),
            all_units_on_map(units@),
            -8_000_000 <= p.x <= 8_000_000 && -8_000_000 <= p.y <= 8_000_000,
            forall|j: int|
                0 <= j < i ==> spec_dist_sq((#[trigger] units@[j]).position, p) > radius_sq,
        decreases n - i,
    {
        proof {
            assert(on_map_pred()(units@[i as int]));
        }
        let d: i64 = units[i].position.distance_squared(p);
        if d <= radius_sq {
            return false;
        }
        i = i + 1;
    }
    true
}

impl Bot {
    /// Expansions an own townhall already claims.
    pub fn owned_expansions(&self) -> (r: Vec<(Point, Point)>)
        requires
            all_units_on_map(self.units.my.townhalls@),
            exps_on_map(self.expansions@),
        ensures
            r@ == self.expansions@.filter(
                claimed_pred(self.units.my.townhalls@, EXPANSION_CLAIM_SQ as int),
            ),
    {
        let mut r: Vec<(Point, Point)> = Vec::new();
        let n: usize = self.expansions.len();
        let mut i: usize = 0;
        proof {
            lemma_filter_take_zero(
                self.expansions@,
                claimed_pred(self.units.my.townhalls@, EXPANSION_CLAIM_SQ as int),
            );
        }
        while i < n
            invariant
                i <= n,
                n == self.expansions@.len(),
                all_units_on_map(self.units.my.townhalls@),
                exps_on_map(self.expansions@),
                r@ == self.expansions@.take(i as int).filter(
                    claimed_pred(self.units.my.townhalls@, EXPANSION_CLAIM_SQ as int),
                ),
            decreases n - i,
        {
            let e: (Point, Point) = self.expansions[i];
            proof {
                lemma_filter_take_step(
                    self.expansions@,
                    claimed_pred(self.units.my.townhalls@, EXPANSION_CLAIM_SQ as int),
                    i as int,
                );
            }
            if any_within(&self.units.my.townhalls, e.0, EXPANSION_CLAIM_SQ) {
                r.push(e);
            }
            i = i + 1;
        }
        proof {
            lemma_take_full(self.expansions@);
        }
        r
    }

    /// Expansions an enemy townhall already claims.
    pub fn enemy_expansions(&self) -> (r: Vec<(Point, Point)>)
        requires
            all_units_on_map(self.units.enemy.townhalls@),
            exps_on_map(self.expansions@),
        ensures
            r@ == self.expansions@.filter(
                claimed_pred(self.units.enemy.townhalls@, EXPANSION_CLAIM_SQ as int),
            ),
    {
        let mut r: Vec<(Point, Point)> = Vec::new();
        let n: usize = self.expansions.len();
        let mut i: usize = 0;
        proof {
            lemma_filter_take_zero(
                self.expansions@,
                claimed_pred(self.units.enemy.townhalls@, EXPANSION_CLAIM_SQ as int),
            );
        }
        while i < n
            invariant
                i <= n,
                n == self.expansions@.len(),
                all_units_on_map(self.units.enemy.townhalls@),
                exps_on_map(self.expansions@),
                r@ == self.expansions@.take(i as int).filter(
                    claimed_pred(self.units.enemy.townhalls@, EXPANSION_CLAIM_SQ as int),
                ),
            decreases n - i,
        {
            let e: (Point, Point) = self.expansions[i];
            proof {
                lemma_filter_take_step(
                    self.expansions@,
                    claimed_pred(self.units.enemy.townhalls@, EXPANSION_CLAIM_SQ as int),
                    i as int,
                );
            }
            if any_within(&self.units.enemy.townhalls, e.0, EXPANSION_CLAIM_SQ) {
                r.push(e);
            }
            i = i + 1;
        }
        proof {
            lemma_take_full(self.expansions@);
        }
        r
    }

    /// Expansions no townhall of either side claims.
    pub fn free_expansions(&self) -> (r: Vec<(Point, Point)>)
        requires
            all_units_on_map(self.units.my.townhalls@),
            all_units_on_map(self.units.enemy.townhalls@),
            exps_on_map(self.expansions@),
        ensures
            r@ == self.expansions@.filter(
                free_pred(
                    self.units.my.townhalls@,
                    self.units.enemy.townhalls@,
                    EXPANSION_CLAIM_SQ as int,
                ),
            ),
    {
        let mut r: Vec<(Point, Point)> = Vec::new();
        let n: usize = self.expansions.len();
        let mut i: usize = 0;
        proof {
            lemma_filter_take_zero(
                self.expansions@,
                free_pred(
                    self.units.my.townhalls@,
                    self.units.enemy.townhalls@,
                    EXPANSION_CLAIM_SQ as int,
                ),
            );
        }
        while i < n
            invariant
                i <= n,
                n == self.expansions@.len(),
                all_units_on_map(self.units.my.townhalls@),
                all_units_on_map(self.units.enemy.townhalls@),
                exps_on_map(self.expansions@),
                r@ == self.expansions@.take(i as int).filter(
                    free_pred(
                        self.units.my.townhalls@,
                        self.units.enemy.townhalls@,
                        EXPANSION_CLAIM_SQ as int,
                    ),
                ),
            decreases n - i,
        {
            let e: (Point, Point) = self.expansions[i];
            proof {
                lemma_filter_take_step(
                    self.expansions@,
                    free_pred(
                        self.units.my.townhalls@,
                        self.units.enemy.townhalls@,
                        EXPANSION_CLAIM_SQ as int,
                    ),
                    i as int,
                );
            }
            let ok: bool = all_beyond(&self.units.my.townhalls, e.0, EXPANSION_CLAIM_SQ)
                && all_beyond(&self.units.enemy.townhalls, e.0, EXPANSION_CLAIM_SQ);
            if ok {
                r.push(e);
            }
            i = i + 1;
        }
        proof {
            lemma_take_full(self.expansions@);
        }
        r
    }

    /// The candidates a next-expansion query paths to: expansions
    /// every townhall of the chosen side stands beyond.
    pub fn expansion_candidates(&self, enemy: bool) -> (r: Vec<(Point, Point)>)
        requires
            all_units_on_map(self.units.my.townhalls@),
            all_units_on_map(self.units.enemy.townhalls@),
            exps_on_map(self.expansions@),
        ensures
            !enemy ==> r@ == self.expansions@.filter(
                unclaimed_pred(self.units.my.townhalls@, EXPANSION_CLAIM_SQ as int),
            ),
            enemy ==> r@ == self.expansions@.filter(
                unclaimed_pred(self.units.enemy.townhalls@, EXPANSION_CLAIM_SQ as int),
            ),
    {
        let ths: &Vec<Unit> = if enemy {
            &self.units.enemy.townhalls
        } else {
            &self.units.my.townhalls
        };
        let mut r: Vec<(Point, Point)> = Vec::new();
        let n: usize = self.expansions.len();
        let mut i: usize = 0;
        proof {
            lemma_filter_take_zero(
                self.expansions@,
                unclaimed_pred(ths@, EXPANSION_CLAIM_SQ as int),
            );
        }
        while i < n
            invariant
                i <= n,
                n == self.expansions@.len(),
                all_units_on_map(ths@),
                exps_on_map(self.expansions@),
                ths@ == if enemy {
                    self.units.enemy.townhalls@
                } else {
                    self.units.my.townhalls@
                },
                r@ == self.expansions@.take(i as int).filter(
                    unclaimed_pred(ths@, EXPANSION_CLAIM_SQ as int),
                ),
            decreases n - i,
        {
            let e: (Point, Point) = self.expansions[i];
            proof {
                lemma_filter_take_step(
                    self.expansions@,
                    unclaimed_pred(ths@, EXPANSION_CLAIM_SQ as int),
                    i as int,
                );
            }
            if all_beyond(ths, e.0, EXPANSION_CLAIM_SQ) {
                r.push(e);
            }
            i = i + 1;
        }
        proof {
            lemma_take_full(self.expansions@);
        }
        r
    }
}

/// The candidate with the least reported path distance, earlier
/// candidates keeping ties; unreachable candidates are skipped.
pub open spec fn spec_select_from(
    acc: Option<((Point, Point), int)>,
    cands: Seq<(Point, Point)>,
    paths: Seq<Option<i64>>,
    i: int,
) -> Option<((Point, Point), int)>
    decreases cands.len() - i,
{
    if i < 0 || i >= cands.len() || i >= paths.len() {
        acc
    } else {
        let acc2 = match paths[i] {
            Some(d) => match acc {
                Option::None => Some((cands[i], d as int)),
                Some(a) => if (d as int) < a.1 {
                    Some((cands[i], d as int))
                } else {
                    acc
                },
            },
            Option::None => acc,
        };
        spec_select_from(acc2, cands, paths, i + 1)
    }
}

/// Pick the reachable candidate with the least path distance.
pub fn select_expansion(cands: &Vec<(Point, Point)>, paths: &Vec<Option<i64>>) -> (r: Option<
    (Point, Point),
>)
    requires
        cands@.len() == paths@.len(),
    ensures
        r == match spec_select_from(Option::None, cands@, paths@, 0) {
            Some(a) => Some(a.0),
            Option::None => Option::None::<(Point, Point)>,
        },
{
    let n: usize = cands.len();
    let mut best: Option<((Point, Point), i64)> = None;
    let mut i: usize = 0;
    while i < n
        invariant
            i <= n,
            n == cands@.len() == paths@.len(),
            spec_select_from(Option::None, cands@, paths@, 0) == spec_select_from(
                match best {
                    Some(b) => Some((b.0, b.1 as int)),
                    Option::None => Option::None,
                },
                cands@,
                paths@,
                i as int,
            ),
        decreases n - i,
    {
        match paths[i] {
            Some(d) => {
                let replace: bool = match &best {
                    Option::None => true,
                    Some(b) => d < b.1,
                };
                if replace {
                    best = Some((cands[i], d));
                }
            },
            Option::None => {},
        }
        i = i + 1;
    }
    match best {
        Some(b) => Some(b.0),
        None => None,
    }
}

/// Relies on rand::Rng::gen_range over `0..len`: the sampled value
/// lies within the given non-empty range.
#[verifier::external_body]
fn random_index(len: usize) -> (r: usize)
    requires
        len > 0,
    ensures
        r < len,
{
    rand::Rng::gen_range(&mut rand::thread_rng(), 0..len)
}

/// One square ring of candidate positions around `near`: for each
/// stepped offset along the ring's edge, the four axis-aligned edge
/// points, in edge order.
pub open spec fn spec_ring_from(near: Point, distance: int, step: int, o: int) -> Seq<Point>
    decreases distance + step - o,
{
    if o > distance || step <= 0 {
        Seq::empty()
    } else {
        seq![
            Point { x: (near.x + o * 1000) as i64, y: (near.y - distance * 1000) as i64 },
            Point { x: (near.x + o * 1000) as i64, y: (near.y + distance * 1000) as i64 },
            Point { x: (near.x - distance * 1000) as i64, y: (near.y + o * 1000) as i64 },
            Point { x: (near.x + distance * 1000) as i64, y: (near.y + o * 1000) as i64 },
        ] + spec_ring_from(near, distance, step, o + step)
    }
}

/// Build the candidate ring at `distance` tiles from `near`, stepped
/// by `step` tiles.
pub fn placement_ring(near: Point, distance: i64, step: i64) -> (r: Vec<Point>)
    requires
        near.wf(),
        1 <= step <= 100,
        1 <= distance <= 1000,
    ensures
        r@ == spec_ring_from(near, distance as int, step as int, -distance as int),
{
    let mut r: Vec<Point> = Vec::new();
    let mut o: i64 = -distance;
    proof {
        assert(spec_ring_from(near, distance as int, step as int, -distance as int) =~= r@
            + spec_ring_from(near, distance as int, step as int, -distance as int));
    }
    while o <= distance
        invariant
            near.wf(),
            1 <= step <= 100,
            1 <= distance <= 1000,
            -distance <= o <= distance + step,
            spec_ring_from(near, distance as int, step as int, -distance as int) == r@
                + spec_ring_from(near, distance as int, step as int, o as int),
        decreases distance + step - o,
    {
        proof {
            assert(-1_000_000 <= o * 1000 <= 1_000_000 && -1_000_000 <= distance * 1000
                <= 1_000_000) by (nonlinear_arith)
                requires
                    -1000 <= o <= 1000 && 1 <= distance <= 1000,
            ;
        }
        let p1 = Point::new(near.x + o * 1000, near.y - distance * 1000);
        let p2 = Point::new(near.x + o * 1000, near.y + distance * 1000);
        let p3 = Point::new(near.x - distance * 1000, near.y + o * 1000);
        let p4 = Point::new(near.x + distance * 1000, near.y + o * 1000);
        r.push(p1);
        r.push(p2);
        r.push(p3);
        r.push(p4);
        proof {
            assert(spec_ring_from(near, distance as int, step as int, o as int) == seq![
                p1,
                p2,
                p3,
                p4,
            ] + spec_ring_from(near, distance as int, step as int, o as int + step as int));
            assert(r@ =~= (r@.subrange(0, r@.len() - 4) + seq![p1, p2, p3, p4]));
            assert((r@.subrange(0, r@.len() - 4) + seq![p1, p2, p3, p4]) + spec_ring_from(
                near,
                distance as int,
                step as int,
                o as int + step as int,
            ) =~= r@.subrange(0, r@.len() - 4) + (seq![p1, p2, p3, p4] + spec_ring_from(
                near,
                distance as int,
                step as int,
                o as int + step as int,
            )));
        }
        o = o + step;
    }
    proof {
        assert(spec_ring_from(near, distance as int, step as int, o as int)
            =~= Seq::<Point>::empty());
        assert(r@ + Seq::<Point>::empty() =~= r@);
    }
    r
}

/// The positions whose per-candidate query succeeded, in order.
pub open spec fn spec_successful(ps: Seq<Point>, ok: Seq<bool>) -> Seq<Point>
    decreases ps.len(),
{
    if ps.len() == 0 || ok.len() == 0 {
        Seq::empty()
    } else {
        spec_successful(ps.drop_last(), ok.drop_last()) + if ok.last() {
            seq![ps.last()]
        } else {
            Seq::<Point>::empty()
        }
    }
}

/// Keep the positions whose query succeeded.
pub fn successful_positions(ps: &Vec<Point>, ok: &Vec<bool>) -> (r: Vec<Point>)
    requires
        ps@.len() == ok@.len(),
    ensures
        r@ == spec_successful(ps@, ok@),
{
    let n: usize = ps.len();
    let mut r: Vec<Point> = Vec::new();
    let mut i: usize = 0;
    proof {
        assert(spec_successful(ps@.take(0), ok@.take(0)) =~= Seq::<Point>::empty());
    }
    while i < n
        invariant
            i <= n,
            n == ps@.len() == ok@.len(),
            r@ == spec_successful(ps@.take(i as int), ok@.take(i as int)),
        decreases n - i,
    {
        proof {
            assert(ps@.take(i as int + 1).drop_last() =~= ps@.take(i as int));
            assert(ok@.take(i as int + 1).drop_last() =~= ok@.take(i as int));
            assert(ps@.take(i as int + 1).last() == ps@[i as int]);
            assert(ok@.take(i as int + 1).last() == ok@[i as int]);
        }
        if ok[i] {
            r.push(ps[i]);
        }
        i = i + 1;
    }
    proof {
        assert(ps@.take(n as int) =~= ps@);
        assert(ok@.take(n as int) =~= ok@);
    }
    r
}

/// All per-candidate results succeeded.
pub fn all_successful(ok: &Vec<bool>) -> (r: bool)
    ensures
        r == forall|i: int| 0 <= i < ok@.len() ==> #[trigger] ok@[i],
{
    let n: usize = ok.len();
    let mut i: usize = 0;
    while i < n
        invariant
            i <= n,
            n == ok@.len(),
            forall|j: int| 0 <= j < i ==> #[trigger] ok@[j],
        decreases n - i,
    {
        if !ok[i] {
            return false;
        }
        i = i + 1;
    }
    true
}

/// The valid position nearest to `near`, earlier positions keeping
/// ties.
pub open spec fn spec_nearest_from(
    acc: Option<(Point, int)>,
    ps: Seq<Point>,
    near: Point,
    i: int,
) -> Option<(Point, int)>
    decreases ps.len() - i,
{
    if i < 0 || i >= ps.len() {
        acc
    } else {
        let d = spec_dist_sq(ps[i], near);
        let acc2 = match acc {
            Option::None => Some((ps[i], d)),
            Some(a) => if d < a.1 {
                Some((ps[i], d))
            } else {
                acc
            },
        };
        spec_nearest_from(acc2, ps, near, i + 1)
    }
}

/// Positions within the search band.
pub open spec fn points_in_band(ps: Seq<Point>) -> bool {
    forall|i: int|
        0 <= i < ps.len() ==> -8_000_000 <= (#[trigger] ps[i]).x <= 8_000_000 && -8_000_000
            <= ps[i].y <= 8_000_000
}

/// Choose among the valid positions: none of an empty list; with
/// `random` one of the list (whichever the process's randomness
/// picks); otherwise exactly the first nearest position to `near`.
pub fn choose_placement(valid: &Vec<Point>, near: Point, random: bool) -> (r: Option<Point>)
    requires
        near.wf(),
        points_in_band(valid@),
    ensures
        (r is Some) == (valid@.len() > 0),
        random ==> (r is Some ==> exists|i: int| 0 <= i < valid@.len() && valid@[i] == r->0),
        !random ==> r == match spec_nearest_from(Option::None, valid@, near, 0) {
            Some(a) => Some(a.0),
            Option::None => Option::None::<Point>,
        },
{
    let n: usize = valid.len();
    if n == 0 {
        proof {
            if !random {
                assert(spec_nearest_from(Option::None, valid@, near, 0) is None);
            }
        }
        return None;
    }
    if random {
        let i: usize = random_index(n);
        return Some(valid[i]);
    }
    let mut best: Option<(Point, i64)> = None;
    let mut i: usize = 0;
    while i < n
        invariant
            i <= n,
            n == valid@.len(),
            near.wf(),
            points_in_band(valid@),
            spec_nearest_from(Option::None, valid@, near, 0) == spec_nearest_from(
                match best {
                    Some(b) => Some((b.0, b.1 as int)),
                    Option::None => Option::None,
                },
                valid@,
                near,
                i as int,
            ),
            best is Some <==> i > 0,
        decreases n - i,
    {
        let p: Point = valid[i];
        let d: i64 = p.distance_squared(near);
        let replace: bool = match &best {
            Option::None => true,
            Some(b) => d < b.1,
        };
        if replace {
            best = Some((p, d));
        }
        i = i + 1;
    }
    match best {
        Some(b) => Some(b.0),
        None => None,
    }
}

/// The first unit whose per-candidate query succeeded.
pub open spec fn spec_first_ok(gs: Seq<Unit>, ok: Seq<bool>) -> Option<Unit>
    decreases gs.len(),
{
    if gs.len() == 0 || ok.len() == 0 {
        Option::None
    } else if ok.first() {
        Some(gs.first())
    } else {
        spec_first_ok(gs.drop_first(), ok.drop_first())
    }
}

/// Pick the first geyser whose placement query succeeded.
pub fn first_successful_unit(gs: &Vec<Unit>, ok: &Vec<bool>) -> (r: Option<Unit>)
    requires
        gs@.len() == ok@.len(),
    ensures
        r == spec_first_ok(gs@, ok@),
{
    let n: usize = gs.len();
    let mut i: usize = 0;
    proof {
        assert(gs@.skip(0) =~= gs@);
        assert(ok@.skip(0) =~= ok@);
    }
    while i < n
        invariant
            i <= n,
            n == gs@.len() == ok@.len(),
            spec_first_ok(gs@, ok@) == spec_first_ok(gs@.skip(i as int), ok@.skip(i as int)),
            forall|j: int| 0 <= j < i ==> !(#[trigger] ok@[j]),
        decreases n - i,
    {
        proof {
            assert(gs@.skip(i as int).first() == gs@[i as int]);
            assert(ok@.skip(i as int).first() == ok@[i as int]);
            assert(gs@.skip(i as int).drop_first() =~= gs@.skip(i as int + 1));
            assert(ok@.skip(i as int).drop_first() =~= ok@.skip(i as int + 1));
        }
        if ok[i] {
            return Some(gs[i]);
        }
        i = i + 1;
    }
    proof {
        assert(gs@.skip(n as int).len() == 0);
    }
    None
}

impl Bot {
    /// The geysers a gas-placement query probes: those strictly
    /// within eleven tiles of the base.
    pub fn gas_placement_candidates(&self, base: Point) -> (r: Vec<Unit>)
        requires
            all_units_on_map(self.units.vespene_geysers@),
            -8_000_000 <= base.x <= 8_000_000 && -8_000_000 <= base.y <= 8_000_000,
        ensures
            r@ == self.units.vespene_geysers@.filter(close_pred(base, 121_000_000)),
    {
        units_within(&self.units.vespene_geysers, base, 121_000_000)
    }
}

} // verus!
