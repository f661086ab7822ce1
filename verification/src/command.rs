//! The command aggregator: orders issued during one tick, keyed by
//! (ability, target, queue flag), each key accumulating the tags of
//! every unit that issued that exact order. At flush time each
//! distinct key becomes a single batched action carrying all tags.

use vstd::prelude::*;
use crate::geom::Point;

verus! {

/// The target of a unit order.
#[derive(Clone, Copy, Debug, PartialEq, Eq, Structural)]
pub enum Target {
    NoTarget,
    Pos(Point),
    Tag(u64),
}

/// The aggregation key: ability, target and queue flag.
pub type CmdKey = (u32, Target, bool);

/// One action to hand to the engine at the end of a tick.
#[derive(Debug)]
pub enum Action {
    /// One batched order: ability, target, issuing unit tags, queue flag.
    UnitCommand(u32, Target, Vec<u64>, bool),
    /// A chat line; the flag selects team-only chat.
    Chat(String, bool),
}

/// The mathematical image of an `Action`.
pub enum ActionView {
    UnitCommand(u32, Target, Seq<u64>, bool),
    Chat(Seq<char>, bool),
}

impl View for Action {
    type V = ActionView;

    open spec fn view(&self) -> ActionView {
        match self {
            Action::UnitCommand(a, t, tags, q) => ActionView::UnitCommand(*a, *t, tags@, *q),
            Action::Chat(m, team) => ActionView::Chat(m@, *team),
        }
    }
}

/// Copy a tag list element by element.
pub fn clone_tags(v: &Vec<u64>) -> (r: Vec<u64>)
    ensures
        r@ == v@,
{
    let mut r: Vec<u64> = Vec::new();
    let n: usize = v.len();
    let mut i: usize = 0;
    while i < n
        invariant
            i <= n,
            n == v@.len(),
            r@ == v@.take(i as int),
        decreases n - i,
    {
        r.push(v[i]);
        proof {
            assert(v@.take(i as int).push(v@[i as int]) =~= v@.take(i as int + 1));
        }
        i = i + 1;
    }
    proof {
        assert(v@.take(n as int) =~= v@);
    }
    r
}

impl Clone for Action {
    fn clone(&self) -> (r: Action)
        ensures
            r@ == self@,
    {
        match self {
            Action::UnitCommand(a, t, tags, q) => Action::UnitCommand(*a, *t, clone_tags(tags), *q),
            Action::Chat(m, team) => Action::Chat(m.clone(), *team),
        }
    }
}

/// Exact equality of two aggregation keys.
pub fn key_eq(a: CmdKey, b: CmdKey) -> (r: bool)
    ensures
        r == (a == b),
{
    let target_same: bool = match (a.1, b.1) {
        (Target::NoTarget, Target::NoTarget) => true,
        (Target::Pos(p), Target::Pos(q)) => p.x == q.x && p.y == q.y,
        (Target::Tag(x), Target::Tag(y)) => x == y,
        _ => false,
    };
    a.0 == b.0 && a.2 == b.2 && target_same
}

/// The per-tick order batch.
pub struct Commander {
    pub commands: Vec<(CmdKey, Vec<u64>)>,
}

/// Some batch entry carries key `k`.
pub open spec fn batch_has_key(v: Seq<(CmdKey, Seq<u64>)>, k: CmdKey) -> bool {
    exists|i: int| 0 <= i < v.len() && v[i].0 == k
}

/// The index of the batch entry carrying key `k`.
pub open spec fn batch_key_index(v: Seq<(CmdKey, Seq<u64>)>, k: CmdKey) -> int {
    choose|i: int| 0 <= i < v.len() && v[i].0 == k
}

/// Keys are distinct across batch entries.
pub open spec fn batch_wf(v: Seq<(CmdKey, Seq<u64>)>) -> bool {
    forall|i: int, j: int| 0 <= i < j < v.len() ==> v[i].0 != v[j].0
}

/// The tags accumulated for key `k`.
pub open spec fn batch_tags_for(v: Seq<(CmdKey, Seq<u64>)>, k: CmdKey) -> Seq<u64> {
    if batch_has_key(v, k) {
        v[batch_key_index(v, k)].1
    } else {
        Seq::empty()
    }
}

/// Recording one order under key `k`: append the tag to the key's
/// entry, or open a new entry at the end of the batch.
pub open spec fn apply_one(
    v: Seq<(CmdKey, Seq<u64>)>,
    k: CmdKey,
    tag: u64,
) -> Seq<(CmdKey, Seq<u64>)> {
    if batch_has_key(v, k) {
        let i = batch_key_index(v, k);
        v.update(i, (k, v[i].1.push(tag)))
    } else {
        v.push((k, seq![tag]))
    }
}

impl Commander {
    pub open spec fn wf(self) -> bool {
        forall|i: int, j: int|
            0 <= i < j < self.commands.len() ==> self.commands[i].0 != self.commands[j].0
    }

    /// The batch as a sequence of (key, tags) pairs.
    pub open spec fn view(self) -> Seq<(CmdKey, Seq<u64>)> {
        self.commands@.map_values(|e: (CmdKey, Vec<u64>)| (e.0, e.1@))
    }

    pub fn new() -> (c: Commander)
        ensures
            c.wf(),
            c@ == Seq::<(CmdKey, Seq<u64>)>::empty(),
    {
        let c = Commander { commands: Vec::new() };
        proof {
            assert(c@ =~= Seq::<(CmdKey, Seq<u64>)>::empty());
        }
        c
    }

    pub fn is_empty(&self) -> (r: bool)
        ensures
            r == (self@.len() == 0),
    {
        self.commands.len() == 0
    }

    pub fn clear(&mut self)
        ensures
            final(self).wf(),
            final(self)@ == Seq::<(CmdKey, Seq<u64>)>::empty(),
    {
        self.commands.clear();
        proof {
            assert(self@ =~= Seq::<(CmdKey, Seq<u64>)>::empty());
        }
    }

    /// Record that the unit with `tag` issued the order
    /// (ability, target, queue) this tick.
    pub fn command(&mut self, tag: u64, ability: u32, target: Target, queue: bool)
        requires
            old(self).wf(),
            old(self).commands@.len() < usize::MAX,
        ensures
            final(self).wf(),
            final(self)@ == apply_one(old(self)@, (ability, target, queue), tag),
    {
        let k: CmdKey = (ability, target, queue);
        let n: usize = self.commands.len();
        let mut i: usize = 0;
        while i < n
            invariant
                i <= n,
                n == self.commands@.len(),
                k == (ability, target, queue),
                self.wf(),
                self.commands@ == old(self).commands@,
                forall|j: int| 0 <= j < i ==> self.commands@[j].0 != k,
            decreases n - i,
        {
            let found: bool = key_eq(self.commands[i].0, k);
            if found {
                let mut tags: Vec<u64> = clone_tags(&self.commands[i].1);
                tags.push(tag);
                self.commands.set(i, (k, tags));
                proof {
                    assert(old(self)@[i as int].0 == k);
                    assert(batch_has_key(old(self)@, k));
                    let w = batch_key_index(old(self)@, k);
                    assert(0 <= w < old(self)@.len() && old(self)@[w].0 == k);
                    assert(w == i as int);
                    assert(self@ =~= apply_one(old(self)@, k, tag));
                }
                return ;
            }
            i = i + 1;
        }
        self.commands.push((k, clone_tags_from(tag)));
        proof {
            assert forall|w: int| 0 <= w < old(self)@.len() implies old(self)@[w].0 != k by {
                assert(old(self).commands@[w].0 != k);
            }
            assert(!batch_has_key(old(self)@, k));
            assert(self@ =~= old(self)@.push((k, seq![tag])));
        }
    }
}

/// A fresh one-element tag list.
fn clone_tags_from(tag: u64) -> (r: Vec<u64>)
    ensures
        r@ =~= seq![tag],
{
    let mut r: Vec<u64> = Vec::new();
    r.push(tag);
    r
}

/// The flush of a batch: the pending plain actions followed by one
/// batched `UnitCommand` per batch entry, in batch order.
pub fn collect_actions(actions: &Vec<Action>, commander: &Commander) -> (r: Vec<Action>)
    requires
        commander.wf(),
    ensures
        r@.len() == actions@.len() + commander@.len(),
        forall|i: int|
            0 <= i < actions@.len() ==> #[trigger] r@[i]@ == actions@[i]@,
        forall|j: int|
            0 <= j < commander@.len() ==> #[trigger] r@[actions@.len() + j]@
                == ActionView::UnitCommand(
                commander@[j].0.0,
                commander@[j].0.1,
                commander@[j].1,
                commander@[j].0.2,
            ),
{
    let mut r: Vec<Action> = Vec::new();
    let n: usize = actions.len();
    let mut i: usize = 0;
    while i < n
        invariant
            i <= n,
            n == actions@.len(),
            r@.len() == i,
            forall|w: int| 0 <= w < i ==> #[trigger] r@[w]@ == actions@[w]@,
        decreases n - i,
    {
        r.push(actions[i].clone());
        i = i + 1;
    }
    let m: usize = commander.commands.len();
    let mut j: usize = 0;
    while j < m
        invariant
            j <= m,
            n == actions@.len(),
            m == commander@.len(),
            m == commander.commands@.len(),
            r@.len() == n + j,
            forall|w: int| 0 <= w < n ==> #[trigger] r@[w]@ == actions@[w]@,
            forall|w: int|
                0 <= w < j ==> #[trigger] r@[n + w]@ == ActionView::UnitCommand(
                    commander@[w].0.0,
                    commander@[w].0.1,
                    commander@[w].1,
                    commander@[w].0.2,
                ),
        decreases m - j,
    {
        let key: CmdKey = commander.commands[j].0;
        let tags: Vec<u64> = clone_tags(&commander.commands[j].1);
        r.push(Action::UnitCommand(key.0, key.1, tags, key.2));
        j = j + 1;
    }
    r
}

// ---------------------------------------------------------------------
// Laws of batching.

/// Any command sequence applied in order, each key's tag going to that
/// key's single entry.
pub open spec fn apply_all(
    v: Seq<(CmdKey, Seq<u64>)>,
    cmds: Seq<(CmdKey, u64)>,
) -> Seq<(CmdKey, Seq<u64>)>
    decreases cmds.len(),
{
    if cmds.len() == 0 {
        v
    } else {
        apply_all(apply_one(v, cmds.first().0, cmds.first().1), cmds.drop_first())
    }
}

/// Some command carries key `k`.
pub open spec fn cmds_have_key(cmds: Seq<(CmdKey, u64)>, k: CmdKey) -> bool {
    exists|i: int| 0 <= i < cmds.len() && cmds[i].0 == k
}

/// The tags of the commands carrying key `k`, in issue order.
pub open spec fn cmds_tags_for(cmds: Seq<(CmdKey, u64)>, k: CmdKey) -> Seq<u64>
    decreases cmds.len(),
{
    if cmds.len() == 0 {
        Seq::empty()
    } else {
        (if cmds.first().0 == k {
            seq![cmds.first().1]
        } else {
            Seq::<u64>::empty()
        }) + cmds_tags_for(cmds.drop_first(), k)
    }
}

/// One recorded order changes exactly its own key's entry.
pub proof fn lemma_apply_one(v: Seq<(CmdKey, Seq<u64>)>, k0: CmdKey, tag: u64)
    requires
        batch_wf(v),
    ensures
        batch_wf(apply_one(v, k0, tag)),
        forall|k: CmdKey|
            #[trigger] batch_has_key(apply_one(v, k0, tag), k) == (batch_has_key(v, k) || k
                == k0),
        forall|k: CmdKey|
            #[trigger] batch_tags_for(apply_one(v, k0, tag), k) == if k == k0 {
                batch_tags_for(v, k) + seq![tag]
            } else {
                batch_tags_for(v, k)
            },
        apply_one(v, k0, tag).len() == if batch_has_key(v, k0) {
            v.len()
        } else {
            v.len() + 1
        },
{
    let r = apply_one(v, k0, tag);
    if batch_has_key(v, k0) {
        let i = batch_key_index(v, k0);
        assert(0 <= i < v.len() && v[i].0 == k0);
        assert forall|k: CmdKey| #[trigger] batch_has_key(r, k) == (batch_has_key(v, k) || k
            == k0) by {
            if batch_has_key(r, k) {
                let w = choose|w: int| 0 <= w < r.len() && r[w].0 == k;
                if w == i {
                    assert(k == k0);
                } else {
                    assert(v[w].0 == k);
                    assert(batch_has_key(v, k));
                }
            }
            if batch_has_key(v, k) {
                let w = choose|w: int| 0 <= w < v.len() && v[w].0 == k;
                if w == i {
                    assert(r[w].0 == k0);
                    assert(k == k0);
                    assert(batch_has_key(r, k));
                } else {
                    assert(r[w].0 == k);
                    assert(batch_has_key(r, k));
                }
            }
            if k == k0 {
                assert(r[i].0 == k0);
                assert(batch_has_key(r, k));
            }
        }
        assert forall|k: CmdKey| #[trigger] batch_tags_for(r, k) == (if k == k0 {
            batch_tags_for(v, k) + seq![tag]
        } else {
            batch_tags_for(v, k)
        }) by {
            if k == k0 {
                assert(r[i].0 == k0);
                let w = batch_key_index(r, k0);
                assert(0 <= w < r.len() && r[w].0 == k0);
                if w != i {
                    assert(v[w].0 == k0);
                    assert(false);
                }
                assert(batch_tags_for(r, k) == v[i].1.push(tag));
                assert(v[i].1.push(tag) =~= v[i].1 + seq![tag]);
            } else {
                if batch_has_key(r, k) {
                    let w = batch_key_index(r, k);
                    assert(0 <= w < r.len() && r[w].0 == k);
                    assert(w != i);
                    assert(v[w].0 == k);
                    v_index_lemma(v, k, w);
                    assert(batch_tags_for(v, k) == v[w].1);
                    assert(batch_tags_for(r, k) == r[w].1);
                } else {
                    assert forall|w: int| 0 <= w < v.len() implies v[w].0 != k by {
                        if v[w].0 == k {
                            assert(w != i);
                            assert(r[w].0 == k);
                        }
                    }
                    assert(!batch_has_key(v, k));
                }
            }
        }
    } else {
        assert(r == v.push((k0, seq![tag])));
        assert forall|a: int, b: int| 0 <= a < b < r.len() implies r[a].0 != r[b].0 by {
            if b < v.len() {
            } else {
                assert(b == v.len());
                assert(r[b].0 == k0);
                assert(v[a].0 != k0) by {
                    if v[a].0 == k0 {
                        assert(batch_has_key(v, k0));
                    }
                }
            }
        }
        assert forall|k: CmdKey| #[trigger] batch_has_key(r, k) == (batch_has_key(v, k) || k
            == k0) by {
            if batch_has_key(r, k) {
                let w = choose|w: int| 0 <= w < r.len() && r[w].0 == k;
                if w == v.len() {
                    assert(k == k0);
                } else {
                    assert(v[w].0 == k);
                    assert(batch_has_key(v, k));
                }
            }
            if batch_has_key(v, k) {
                let w = choose|w: int| 0 <= w < v.len() && v[w].0 == k;
                assert(r[w].0 == k);
                assert(batch_has_key(r, k));
            }
            if k == k0 {
                assert(r[v.len() as int].0 == k0);
                assert(batch_has_key(r, k));
            }
        }
        assert forall|k: CmdKey| #[trigger] batch_tags_for(r, k) == (if k == k0 {
            batch_tags_for(v, k) + seq![tag]
        } else {
            batch_tags_for(v, k)
        }) by {
            if k == k0 {
                assert(r[v.len() as int].0 == k0);
                assert(batch_has_key(r, k0));
                let w = batch_key_index(r, k0);
                assert(0 <= w < r.len() && r[w].0 == k0);
                if w != v.len() {
                    assert(v[w].0 == k0);
                    assert(false);
                }
                assert(batch_tags_for(r, k) == seq![tag]);
                assert(batch_tags_for(v, k) == Seq::<u64>::empty());
                assert(Seq::<u64>::empty() + seq![tag] =~= seq![tag]);
            } else {
                if batch_has_key(r, k) {
                    let w = batch_key_index(r, k);
                    assert(0 <= w < r.len() && r[w].0 == k);
                    assert(w != v.len());
                    assert(v[w].0 == k);
                    v_index_lemma(v, k, w);
                    assert(batch_tags_for(v, k) == v[w].1);
                    assert(batch_tags_for(r, k) == r[w].1);
                } else {
                    assert forall|w: int| 0 <= w < v.len() implies v[w].0 != k by {
                        if v[w].0 == k {
                            assert(r[w].0 == k);
                        }
                    }
                    assert(!batch_has_key(v, k));
                }
            }
        }
    }
}

/// With unique keys the key's index is any index carrying it.
proof fn v_index_lemma(v: Seq<(CmdKey, Seq<u64>)>, k: CmdKey, w: int)
    requires
        batch_wf(v),
        0 <= w < v.len(),
        v[w].0 == k,
    ensures
        batch_key_index(v, k) == w,
        batch_has_key(v, k),
{
    let j = batch_key_index(v, k);
    assert(0 <= j < v.len() && v[j].0 == k);
}

/// Applying a command sequence: each key accumulates exactly the tags
/// issued under it, in order, and a key is present exactly when some
/// command carried it.
pub proof fn lemma_apply_all(v: Seq<(CmdKey, Seq<u64>)>, cmds: Seq<(CmdKey, u64)>)
    requires
        batch_wf(v),
    ensures
        batch_wf(apply_all(v, cmds)),
        forall|k: CmdKey|
            #[trigger] batch_has_key(apply_all(v, cmds), k) == (batch_has_key(v, k)
                || cmds_have_key(cmds, k)),
        forall|k: CmdKey|
            #[trigger] batch_tags_for(apply_all(v, cmds), k) == batch_tags_for(v, k)
                + cmds_tags_for(cmds, k),
    decreases cmds.len(),
{
    if cmds.len() == 0 {
        assert forall|k: CmdKey| #[trigger] batch_has_key(apply_all(v, cmds), k) == (
        batch_has_key(v, k) || cmds_have_key(cmds, k)) by {
            if cmds_have_key(cmds, k) {
                let w = choose|w: int| 0 <= w < cmds.len() && cmds[w].0 == k;
                assert(false);
            }
        }
        assert forall|k: CmdKey| #[trigger] batch_tags_for(apply_all(v, cmds), k)
            == batch_tags_for(v, k) + cmds_tags_for(cmds, k) by {
            assert(batch_tags_for(v, k) + Seq::<u64>::empty() =~= batch_tags_for(v, k));
        }
    } else {
        let k0 = cmds.first().0;
        let t0 = cmds.first().1;
        let v1 = apply_one(v, k0, t0);
        lemma_apply_one(v, k0, t0);
        lemma_apply_all(v1, cmds.drop_first());
        assert forall|k: CmdKey| #[trigger] batch_has_key(apply_all(v, cmds), k) == (
        batch_has_key(v, k) || cmds_have_key(cmds, k)) by {
            assert(batch_has_key(apply_all(v1, cmds.drop_first()), k) == (batch_has_key(v1, k)
                || cmds_have_key(cmds.drop_first(), k)));
            if cmds_have_key(cmds, k) {
                let w = choose|w: int| 0 <= w < cmds.len() && cmds[w].0 == k;
                if w == 0 {
                    assert(k == k0);
                } else {
                    assert(cmds.drop_first()[w - 1].0 == k);
                    assert(cmds_have_key(cmds.drop_first(), k));
                }
            }
            if cmds_have_key(cmds.drop_first(), k) {
                let w = choose|w: int| 0 <= w < cmds.drop_first().len() && cmds.drop_first()[w].0
                    == k;
                assert(cmds[w + 1].0 == k);
                assert(cmds_have_key(cmds, k));
            }
            if k == k0 {
                assert(cmds[0].0 == k);
                assert(cmds_have_key(cmds, k));
            }
        }
        assert forall|k: CmdKey| #[trigger] batch_tags_for(apply_all(v, cmds), k)
            == batch_tags_for(v, k) + cmds_tags_for(cmds, k) by {
            assert(batch_tags_for(apply_all(v1, cmds.drop_first()), k) == batch_tags_for(v1, k)
                + cmds_tags_for(cmds.drop_first(), k));
            if k == k0 {
                assert(batch_tags_for(v1, k) == batch_tags_for(v, k) + seq![t0]);
                assert(cmds_tags_for(cmds, k) == seq![t0] + cmds_tags_for(cmds.drop_first(), k));
                assert((batch_tags_for(v, k) + seq![t0]) + cmds_tags_for(cmds.drop_first(), k)
                    =~= batch_tags_for(v, k) + (seq![t0] + cmds_tags_for(cmds.drop_first(), k)));
            } else {
                assert(batch_tags_for(v1, k) == batch_tags_for(v, k));
                assert(cmds_tags_for(cmds, k) == Seq::<u64>::empty() + cmds_tags_for(
                    cmds.drop_first(),
                    k,
                ));
                assert(Seq::<u64>::empty() + cmds_tags_for(cmds.drop_first(), k)
                    =~= cmds_tags_for(cmds.drop_first(), k));
            }
        }
    }
}

/// The tags of commands all carrying one key are all their tags.
pub proof fn lemma_cmds_tags_all_same(cmds: Seq<(CmdKey, u64)>, k: CmdKey)
    requires
        forall|i: int| 0 <= i < cmds.len() ==> cmds[i].0 == k,
    ensures
        cmds_tags_for(cmds, k) == cmds.map_values(|c: (CmdKey, u64)| c.1),
    decreases cmds.len(),
{
    if cmds.len() == 0 {
        assert(cmds_tags_for(cmds, k) =~= cmds.map_values(|c: (CmdKey, u64)| c.1));
    } else {
        lemma_cmds_tags_all_same(cmds.drop_first(), k);
        assert(cmds.drop_first().map_values(|c: (CmdKey, u64)| c.1) =~= cmds.map_values(
            |c: (CmdKey, u64)| c.1,
        ).drop_first());
        assert(cmds_tags_for(cmds, k) =~= cmds.map_values(|c: (CmdKey, u64)| c.1));
    }
}

/// N units issuing one identical (ability, target, queue) order in a
/// tick batch as exactly one entry carrying all N tags in issue order.
pub proof fn lemma_identical_orders_batch_once(cmds: Seq<(CmdKey, u64)>, k: CmdKey)
    requires
        cmds.len() > 0,
        forall|i: int| 0 <= i < cmds.len() ==> cmds[i].0 == k,
    ensures
        apply_all(Seq::empty(), cmds) =~= seq![(k, cmds.map_values(|c: (CmdKey, u64)| c.1))],
{
    let empty: Seq<(CmdKey, Seq<u64>)> = Seq::empty();
    lemma_apply_all(empty, cmds);
    lemma_cmds_tags_all_same(cmds, k);
    let r = apply_all(empty, cmds);
    assert(cmds[0].0 == k);
    assert(cmds_have_key(cmds, k));
    assert(batch_has_key(r, k));
    let i = batch_key_index(r, k);
    assert(0 <= i < r.len() && r[i].0 == k);
    assert forall|w: int| 0 <= w < r.len() implies (#[trigger] r[w]).0 == k by {
        let kw = r[w].0;
        assert(batch_has_key(r, kw)) by {
            assert(r[w].0 == kw);
        }
        assert(cmds_have_key(cmds, kw));
        let c = choose|c: int| 0 <= c < cmds.len() && cmds[c].0 == kw;
        assert(kw == k);
    }
    assert(r.len() == 1) by {
        if r.len() >= 2 {
            assert(r[0].0 == k && r[1].0 == k);
            assert(false);
        }
    }
    assert(i == 0);
    assert(r[0].1 == batch_tags_for(r, k));
    assert(batch_tags_for(r, k) =~= cmds.map_values(|c: (CmdKey, u64)| c.1));
}

/// Two differing orders batch as exactly two entries, each carrying
/// exactly the tags issued under its own key.
pub proof fn lemma_two_orders_batch_twice(cmds: Seq<(CmdKey, u64)>, k1: CmdKey, k2: CmdKey)
    requires
        k1 != k2,
        forall|i: int| 0 <= i < cmds.len() ==> cmds[i].0 == k1 || cmds[i].0 == k2,
        cmds_have_key(cmds, k1),
        cmds_have_key(cmds, k2),
    ensures
        apply_all(Seq::empty(), cmds).len() == 2,
        batch_tags_for(apply_all(Seq::empty(), cmds), k1) == cmds_tags_for(cmds, k1),
        batch_tags_for(apply_all(Seq::empty(), cmds), k2) == cmds_tags_for(cmds, k2),
{
    let empty: Seq<(CmdKey, Seq<u64>)> = Seq::empty();
    lemma_apply_all(empty, cmds);
    let r = apply_all(empty, cmds);
    assert(batch_has_key(r, k1));
    assert(batch_has_key(r, k2));
    let i1 = batch_key_index(r, k1);
    let i2 = batch_key_index(r, k2);
    assert(0 <= i1 < r.len() && r[i1].0 == k1);
    assert(0 <= i2 < r.len() && r[i2].0 == k2);
    assert(i1 != i2);
    assert(r.len() >= 2);
    assert forall|w: int| 0 <= w < r.len() implies ((#[trigger] r[w]).0 == k1 || r[w].0
        == k2) by {
        let kw = r[w].0;
        assert(batch_has_key(r, kw)) by {
            assert(r[w].0 == kw);
        }
        assert(cmds_have_key(cmds, kw));
        let c = choose|c: int| 0 <= c < cmds.len() && cmds[c].0 == kw;
        assert(kw == k1 || kw == k2);
    }
    if r.len() > 2 {
        assert(r[0].0 == k1 || r[0].0 == k2);
        assert(r[1].0 == k1 || r[1].0 == k2);
        assert(r[2].0 == k1 || r[2].0 == k2);
        assert(r[0].0 != r[1].0 && r[0].0 != r[2].0 && r[1].0 != r[2].0);
        assert(false);
    }
    assert(batch_tags_for(r, k1) =~= cmds_tags_for(cmds, k1)) by {
        assert(batch_tags_for(empty, k1) + cmds_tags_for(cmds, k1) =~= cmds_tags_for(cmds, k1));
    }
    assert(batch_tags_for(r, k2) =~= cmds_tags_for(cmds, k2)) by {
        assert(batch_tags_for(empty, k2) + cmds_tags_for(cmds, k2) =~= cmds_tags_for(cmds, k2));
    }
}

} // verus!
