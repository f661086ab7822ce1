//! The per-tick derived counters: `orders[ability]` and
//! `current_units[type]`, rebuilt in full every tick. Together they
//! are the sole source of truth for "how many of type T do I have or
//! am I already producing".

use vstd::prelude::*;
use crate::game_data::{production_ability, spec_production_ability, GameData};
use crate::ids;
use crate::unit::{Alliance, Unit, UnitOrder};
use crate::util::lemma_take_full;
use crate::vecmap::{bump, spec_count_of, VecMap};

verus! {

/// How many order entries carry tag `t` and ability `a`.
pub open spec fn entries_with(es: Seq<UnitOrder>, t: u64, a: u32) -> int
    decreases es.len(),
{
    if es.len() == 0 {
        0
    } else {
        entries_with(es.drop_last(), t, a) + if es.last().tag == t && es.last().ability == a {
            1int
        } else {
            0int
        }
    }
}

/// How many active orders of own units carry ability `a`.
pub open spec fn order_entries_count(us: Seq<Unit>, es: Seq<UnitOrder>, a: u32) -> int
    decreases us.len(),
{
    if us.len() == 0 {
        0
    } else {
        order_entries_count(us.drop_last(), es, a) + if us.last().is_mine() {
            entries_with(es, us.last().tag, a)
        } else {
            0int
        }
    }
}

/// An own unit that is not yet a finished unit: under construction or
/// a placeholder preview.
pub open spec fn spec_is_pending(u: Unit) -> bool {
    u.is_mine() && (!u.is_ready || u.is_placeholder)
}

/// How many own pending units have production ability `a`.
pub open spec fn pending_count(us: Seq<Unit>, gd: GameData, a: u32) -> int
    decreases us.len(),
{
    if us.len() == 0 {
        0
    } else {
        pending_count(us.drop_last(), gd, a) + if spec_is_pending(us.last())
            && spec_production_ability(gd, us.last().type_id) == Some(a) {
            1int
        } else {
            0int
        }
    }
}

/// The value `orders[a]` must hold: active non-construction order
/// entries of own units, plus own pending units whose production
/// ability is `a`.
pub open spec fn spec_orders_count(us: Seq<Unit>, es: Seq<UnitOrder>, gd: GameData, a: u32) -> int {
    (if ids::spec_is_constructing_ability(a) {
        0int
    } else {
        order_entries_count(us, es, a)
    }) + pending_count(us, gd, a)
}

/// The value `current_units[t]` must hold: own, ready, non-placeholder
/// units of type `t`.
pub open spec fn spec_current_count(us: Seq<Unit>, t: u32) -> int
    decreases us.len(),
{
    if us.len() == 0 {
        0
    } else {
        spec_current_count(us.drop_last(), t) + if us.last().is_mine() && us.last().is_ready
            && !us.last().is_placeholder && us.last().type_id == t {
            1int
        } else {
            0int
        }
    }
}

/// How many own units of type `t` the snapshot reports, ready or not.
pub open spec fn own_of_type_count(us: Seq<Unit>, t: u32) -> int
    decreases us.len(),
{
    if us.len() == 0 {
        0
    } else {
        own_of_type_count(us.drop_last(), t) + if us.last().is_mine() && us.last().type_id == t {
            1int
        } else {
            0int
        }
    }
}

pub proof fn lemma_entries_with_bound(es: Seq<UnitOrder>, t: u64, a: u32)
    ensures
        0 <= entries_with(es, t, a) <= es.len(),
    decreases es.len(),
{
    if es.len() > 0 {
        lemma_entries_with_bound(es.drop_last(), t, a);
    }
}

pub proof fn lemma_order_entries_bound(us: Seq<Unit>, es: Seq<UnitOrder>, a: u32)
    ensures
        0 <= order_entries_count(us, es, a) <= us.len() * es.len(),
    decreases us.len(),
{
    if us.len() > 0 {
        lemma_order_entries_bound(us.drop_last(), es, a);
        lemma_entries_with_bound(es, us.last().tag, a);
        assert((us.len() - 1) * es.len() + es.len() == us.len() * es.len()) by (nonlinear_arith);
    } else {
        assert(us.len() * es.len() == 0) by (nonlinear_arith)
            requires
                us.len() == 0,
        ;
    }
}

pub proof fn lemma_pending_bound(us: Seq<Unit>, gd: GameData, a: u32)
    ensures
        0 <= pending_count(us, gd, a) <= us.len(),
    decreases us.len(),
{
    if us.len() > 0 {
        lemma_pending_bound(us.drop_last(), gd, a);
    }
}

pub proof fn lemma_current_bound(us: Seq<Unit>, t: u32)
    ensures
        0 <= spec_current_count(us, t) <= us.len(),
    decreases us.len(),
{
    if us.len() > 0 {
        lemma_current_bound(us.drop_last(), t);
    }
}

pub proof fn lemma_entries_with_step(es: Seq<UnitOrder>, t: u64, a: u32, j: int)
    requires
        0 <= j < es.len(),
    ensures
        entries_with(es.take(j + 1), t, a) == entries_with(es.take(j), t, a) + if es[j].tag == t
            && es[j].ability == a {
            1int
        } else {
            0int
        },
{
    assert(es.take(j + 1).drop_last() =~= es.take(j));
    assert(es.take(j + 1).last() == es[j]);
}

pub proof fn lemma_order_entries_step(us: Seq<Unit>, es: Seq<UnitOrder>, a: u32, i: int)
    requires
        0 <= i < us.len(),
    ensures
        order_entries_count(us.take(i + 1), es, a) == order_entries_count(us.take(i), es, a)
            + if us[i].is_mine() {
            entries_with(es, us[i].tag, a)
        } else {
            0int
        },
{
    assert(us.take(i + 1).drop_last() =~= us.take(i));
    assert(us.take(i + 1).last() == us[i]);
}

pub proof fn lemma_pending_step(us: Seq<Unit>, gd: GameData, a: u32, i: int)
    requires
        0 <= i < us.len(),
    ensures
        pending_count(us.take(i + 1), gd, a) == pending_count(us.take(i), gd, a)
            + if spec_is_pending(us[i]) && spec_production_ability(gd, us[i].type_id) == Some(a) {
            1int
        } else {
            0int
        },
{
    assert(us.take(i + 1).drop_last() =~= us.take(i));
    assert(us.take(i + 1).last() == us[i]);
}

pub proof fn lemma_current_step(us: Seq<Unit>, t: u32, i: int)
    requires
        0 <= i < us.len(),
    ensures
        spec_current_count(us.take(i + 1), t) == spec_current_count(us.take(i), t)
            + if us[i].is_mine() && us[i].is_ready && !us[i].is_placeholder && us[i].type_id
            == t {
            1int
        } else {
            0int
        },
{
    assert(us.take(i + 1).drop_last() =~= us.take(i));
    assert(us.take(i + 1).last() == us[i]);
}

/// Rebuild both counter maps from the snapshot. Every ability's and
/// every type's recorded count is pinned exactly.
pub fn compute_counters(units: &Vec<Unit>, entries: &Vec<UnitOrder>, gd: &GameData) -> (r: (
    VecMap<usize>,
    VecMap<usize>,
))
    requires
        gd.wf(),
        units@.len() <= 60_000,
        entries@.len() <= 60_000,
    ensures
        r.0.wf() && r.1.wf(),
        forall|a: u32|
            spec_count_of(r.0@, a as u64) == spec_orders_count(units@, entries@, *gd, a),
        forall|t: u32| spec_count_of(r.1@, t as u64) == spec_current_count(units@, t),
        forall|k: u64| r.0@.contains_key(k) ==> k < 0x1_0000_0000,
        forall|k: u64| r.1@.contains_key(k) ==> k < 0x1_0000_0000,
{
    let mut orders: VecMap<usize> = VecMap::new();
    let mut current: VecMap<usize> = VecMap::new();
    let n: usize = units.len();
    let m: usize = entries.len();
    let mut i: usize = 0;
    while i < n
        invariant
            i <= n,
            n == units@.len() <= 60_000,
            m == entries@.len() <= 60_000,
            gd.wf(),
            orders.wf() && current.wf(),
            orders.entries@.len() <= i * (m + 1),
            current.entries@.len() <= i,
            forall|a: u32|
                #[trigger] spec_count_of(orders@, a as u64) == spec_orders_count(
                    units@.take(i as int),
                    entries@,
                    *gd,
                    a,
                ),
            forall|t: u32|
                #[trigger] spec_count_of(current@, t as u64) == spec_current_count(
                    units@.take(i as int),
                    t,
                ),
            forall|k: u64| orders@.contains_key(k) ==> k < 0x1_0000_0000,
            forall|k: u64| current@.contains_key(k) ==> k < 0x1_0000_0000,
        decreases n - i,
    {
        let u: Unit = units[i];
        let on_own: bool = matches!(u.alliance, Alliance::Own);
        if on_own {
            // Count this unit's active non-construction orders.
            let mut j: usize = 0;
            while j < m
                invariant
                    j <= m,
                    i < n,
                    n == units@.len() <= 60_000,
                    m == entries@.len() <= 60_000,
                    gd.wf(),
                    u == units@[i as int],
                    u.is_mine(),
                    orders.wf() && current.wf(),
                    orders.entries@.len() <= i * (m + 1) + j,
                    current.entries@.len() <= i,
                    forall|a: u32|
                        #[trigger] spec_count_of(orders@, a as u64) == spec_orders_count(
                            units@.take(i as int),
                            entries@,
                            *gd,
                            a,
                        ) + (if ids::spec_is_constructing_ability(a) {
                            0int
                        } else {
                            entries_with(entries@.take(j as int), u.tag, a)
                        }),
                    forall|t: u32|
                        #[trigger] spec_count_of(current@, t as u64) == spec_current_count(
                            units@.take(i as int),
                            t,
                        ),
                    forall|k: u64| orders@.contains_key(k) ==> k < 0x1_0000_0000,
                    forall|k: u64| current@.contains_key(k) ==> k < 0x1_0000_0000,
                decreases m - j,
            {
                let e: UnitOrder = entries[j];
                let ghost pre_orders = orders@;
                let is_match: bool = e.tag == u.tag && !ids::is_constructing_ability(e.ability);
                if is_match {
                    proof {
                        lemma_order_entries_bound(units@.take(i as int), entries@, e.ability);
                        lemma_pending_bound(units@.take(i as int), *gd, e.ability);
                        lemma_entries_with_bound(entries@.take(j as int), u.tag, e.ability);
                        assert(i * (m + 1) + j + 1 <= 60_000 * 60_001) by (nonlinear_arith)
                            requires
                                0 <= i < 60_000 && 0 <= j < 60_000 && 0 <= m <= 60_000,
                        ;
                        assert(units@.take(i as int).len() * entries@.len() <= 60_000 * 60_000)
                            by (nonlinear_arith)
                            requires
                                0 <= units@.take(i as int).len() <= 60_000,
                                0 <= entries@.len() <= 60_000,
                        ;
                    }
                    bump(&mut orders, e.ability as u64);
                }
                proof {
                    assert forall|a: u32|
                        #[trigger] spec_count_of(orders@, a as u64) == spec_orders_count(
                            units@.take(i as int),
                            entries@,
                            *gd,
                            a,
                        ) + (if ids::spec_is_constructing_ability(a) {
                            0int
                        } else {
                            entries_with(entries@.take(j as int + 1), u.tag, a)
                        }) by {
                        lemma_entries_with_step(entries@, u.tag, a, j as int);
                        if is_match && a == e.ability {
                        } else if is_match {
                            assert(a as u64 != e.ability as u64);
                            assert(spec_count_of(orders@, a as u64) == spec_count_of(
                                pre_orders,
                                a as u64,
                            ));
                        }
                    }
                }
                j = j + 1;
            }
            proof {
                lemma_take_full(entries@);
            }
            // Count the unit itself: ready units into `current_units`,
            // pending ones as one more in-flight production order.
            let ghost pre_orders = orders@;
            let ghost pre_current = current@;
            let mut pending_bumped: Option<u32> = None;
            if u.is_ready && !u.is_placeholder {
                proof {
                    lemma_current_bound(units@.take(i as int), u.type_id);
                }
                bump(&mut current, u.type_id as u64);
            } else {
                match production_ability(gd, u.type_id) {
                    Some(ab) => {
                        proof {
                            lemma_order_entries_bound(units@.take(i as int), entries@, ab);
                            lemma_pending_bound(units@.take(i as int), *gd, ab);
                            lemma_entries_with_bound(entries@, u.tag, ab);
                            assert(units@.take(i as int).len() * entries@.len() <= 60_000
                                * 60_000) by (nonlinear_arith)
                                requires
                                    0 <= units@.take(i as int).len() <= 60_000,
                                    0 <= entries@.len() <= 60_000,
                            ;
                            assert(i * (m + 1) + m + 1 <= 60_000 * 60_001) by (nonlinear_arith)
                                requires
                                    0 <= i < 60_000 && 0 <= m <= 60_000,
                            ;
                        }
                        bump(&mut orders, ab as u64);
                        pending_bumped = Some(ab);
                    },
                    None => {},
                }
            }
            proof {
                assert forall|a: u32|
                    #[trigger] spec_count_of(orders@, a as u64) == spec_orders_count(
                        units@.take(i as int + 1),
                        entries@,
                        *gd,
                        a,
                    ) by {
                    lemma_order_entries_step(units@, entries@, a, i as int);
                    lemma_pending_step(units@, *gd, a, i as int);
                    match pending_bumped {
                        Some(ab) => {
                            if a != ab {
                                assert(a as u64 != ab as u64);
                                assert(spec_count_of(orders@, a as u64) == spec_count_of(
                                    pre_orders,
                                    a as u64,
                                ));
                            }
                        },
                        None => {},
                    }
                }
                assert forall|t: u32|
                    #[trigger] spec_count_of(current@, t as u64) == spec_current_count(
                        units@.take(i as int + 1),
                        t,
                    ) by {
                    lemma_current_step(units@, t, i as int);
                    if u.is_ready && !u.is_placeholder {
                        if t != u.type_id {
                            assert(t as u64 != u.type_id as u64);
                            assert(spec_count_of(current@, t as u64) == spec_count_of(
                                pre_current,
                                t as u64,
                            ));
                        }
                    }
                }
                assert(i * (m + 1) + m + 1 <= (i + 1) * (m + 1)) by (nonlinear_arith);
            }
        } else {
            proof {
                assert forall|a: u32|
                    #[trigger] spec_count_of(orders@, a as u64) == spec_orders_count(
                        units@.take(i as int + 1),
                        entries@,
                        *gd,
                        a,
                    ) by {
                    lemma_order_entries_step(units@, entries@, a, i as int);
                    lemma_pending_step(units@, *gd, a, i as int);
                }
                assert forall|t: u32|
                    #[trigger] spec_count_of(current@, t as u64) == spec_current_count(
                        units@.take(i as int + 1),
                        t,
                    ) by {
                    lemma_current_step(units@, t, i as int);
                }
                assert(i * (m + 1) <= (i + 1) * (m + 1)) by (nonlinear_arith);
            }
        }
        i = i + 1;
    }
    proof {
        lemma_take_full(units@);
    }
    (orders, current)
}

/// The direct reading of "ready or in progress" off the raw snapshot:
/// every own unit of type `t` (finished or under construction), plus
/// every in-flight non-construction production order with the type's
/// production ability `a`.
pub open spec fn spec_manual_count(
    us: Seq<Unit>,
    es: Seq<UnitOrder>,
    gd: GameData,
    t: u32,
    a: u32,
) -> int {
    own_of_type_count(us, t) + (if ids::spec_is_constructing_ability(a) {
        0int
    } else {
        order_entries_count(us, es, a)
    })
}

/// Unit accounting: for a type `t` whose production ability `a` no
/// other type shares, `current_units[t] + orders[a]` equals the manual
/// ready-or-in-progress count taken directly from the raw snapshot.
pub proof fn lemma_unit_accounting(
    us: Seq<Unit>,
    es: Seq<UnitOrder>,
    gd: GameData,
    t: u32,
    a: u32,
)
    requires
        spec_production_ability(gd, t) == Some(a),
        forall|t2: u32| spec_production_ability(gd, t2) == Some(a) ==> t2 == t,
    ensures
        spec_current_count(us, t) + spec_orders_count(us, es, gd, a) == spec_manual_count(
            us,
            es,
            gd,
            t,
            a,
        ),
    decreases us.len(),
{
    if us.len() > 0 {
        lemma_unit_accounting(us.drop_last(), es, gd, t, a);
        let u = us.last();
        if spec_is_pending(u) && spec_production_ability(gd, u.type_id) == Some(a) {
            assert(u.type_id == t);
        }
    }
}

} // verus!
