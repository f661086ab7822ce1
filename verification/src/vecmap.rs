//! An association list with unique keys, viewed as a `Map<u64, V>`.
//! The per-tick counters, the cooldown high-water table and the
//! per-unit ability table are all instances of it; unlike a hash map
//! its iteration order is deterministic, which keeps every rebuild of
//! the per-tick state reproducible.

use vstd::prelude::*;

verus! {

#[derive(Clone, Debug)]
pub struct VecMap<V> {
    pub entries: Vec<(u64, V)>,
}

/// Some entry carries key `k`.
pub open spec fn spec_has_key<V>(s: Seq<(u64, V)>, k: u64) -> bool {
    exists|i: int| 0 <= i < s.len() && s[i].0 == k
}

/// The index of the entry carrying key `k`.
pub open spec fn spec_key_index<V>(s: Seq<(u64, V)>, k: u64) -> int {
    choose|i: int| 0 <= i < s.len() && s[i].0 == k
}

impl<V> VecMap<V> {
    /// All keys are distinct.
    pub open spec fn wf(self) -> bool {
        forall|i: int, j: int|
            0 <= i < j < self.entries.len() ==> self.entries[i].0 != self.entries[j].0
    }

    pub open spec fn view(self) -> Map<u64, V> {
        Map::new(
            |k: u64| spec_has_key(self.entries@, k),
            |k: u64| self.entries@[spec_key_index(self.entries@, k)].1,
        )
    }

    pub proof fn lemma_key_index_unique(self, k: u64, i: int)
        requires
            self.wf(),
            0 <= i < self.entries.len(),
            self.entries@[i].0 == k,
        ensures
            spec_key_index(self.entries@, k) == i,
            self@.contains_key(k),
            self@[k] == self.entries@[i].1,
    {
        let j = spec_key_index(self.entries@, k);
        assert(0 <= j < self.entries.len() && self.entries@[j].0 == k);
    }

    pub fn new() -> (m: VecMap<V>)
        ensures
            m.wf(),
            m@ == Map::<u64, V>::empty(),
            m.entries@.len() == 0,
    {
        let m = VecMap { entries: Vec::new() };
        proof {
            assert(m@ =~= Map::<u64, V>::empty());
        }
        m
    }

    pub fn len(&self) -> (n: usize)
        ensures
            n == self.entries@.len(),
    {
        self.entries.len()
    }

    pub fn get(&self, k: u64) -> (r: Option<&V>)
        requires
            self.wf(),
        ensures
            match r {
                Some(v) => self@.contains_key(k) && *v == self@[k],
                None => !self@.contains_key(k),
            },
    {
        let n: usize = self.entries.len();
        let mut i: usize = 0;
        while i < n
            invariant
                i <= n,
                n == self.entries@.len(),
                self.wf(),
                forall|j: int| 0 <= j < i ==> self.entries@[j].0 != k,
            decreases n - i,
        {
            if self.entries[i].0 == k {
                proof {
                    self.lemma_key_index_unique(k, i as int);
                }
                return Some(&self.entries[i].1);
            }
            i = i + 1;
        }
        proof {
            assert(!spec_has_key(self.entries@, k));
        }
        None
    }

    pub fn insert(&mut self, k: u64, v: V)
        requires
            old(self).wf(),
            old(self).entries@.len() < usize::MAX,
        ensures
            final(self).wf(),
            final(self)@ == old(self)@.insert(k, v),
            final(self).entries@.len() <= old(self).entries@.len() + 1,
    {
        let n: usize = self.entries.len();
        let mut i: usize = 0;
        while i < n
            invariant
                i <= n,
                n == self.entries@.len(),
                self.wf(),
                self.entries@ == old(self).entries@,
                forall|j: int| 0 <= j < i ==> self.entries@[j].0 != k,
            decreases n - i,
        {
            if self.entries[i].0 == k {
                proof {
                    self.lemma_key_index_unique(k, i as int);
                }
                self.entries.set(i, (k, v));
                proof {
                    assert(old(self).entries@[i as int].0 == k);
                    assert forall|k2: u64| #[trigger] spec_has_key(self.entries@, k2)
                        == spec_has_key(old(self).entries@, k2) by {
                        if spec_has_key(self.entries@, k2) {
                            let w = choose|w: int|
                                0 <= w < self.entries@.len() && self.entries@[w].0 == k2;
                            if w == i as int {
                                assert(old(self).entries@[i as int].0 == k2);
                            } else {
                                assert(old(self).entries@[w].0 == k2);
                            }
                            assert(spec_has_key(old(self).entries@, k2));
                        }
                        if spec_has_key(old(self).entries@, k2) {
                            let w = choose|w: int|
                                0 <= w < old(self).entries@.len() && old(self).entries@[w].0
                                    == k2;
                            if w == i as int {
                                assert(self.entries@[i as int].0 == k2);
                            } else {
                                assert(self.entries@[w].0 == k2);
                            }
                            assert(spec_has_key(self.entries@, k2));
                        }
                    }
                    assert forall|k2: u64| self@.contains_key(k2) implies self@[k2]
                        == old(self)@.insert(k, v)[k2] by {
                        if k2 == k {
                            self.lemma_key_index_unique(k, i as int);
                        } else {
                            let w = spec_key_index(old(self).entries@, k2);
                            assert(old(self).entries@[w].0 == k2);
                            assert(self.entries@[w].0 == k2);
                            self.lemma_key_index_unique(k2, w);
                            old(self).lemma_key_index_unique(k2, w);
                        }
                    }
                    assert(self@ =~= old(self)@.insert(k, v));
                }
                return ;
            }
            i = i + 1;
        }
        self.entries.push((k, v));
        proof {
            assert(self.entries@[n as int].0 == k);
            assert forall|k2: u64| self@.contains_key(k2) implies self@[k2]
                == old(self)@.insert(k, v)[k2] by {
                if k2 == k {
                    self.lemma_key_index_unique(k, n as int);
                } else {
                    let w = spec_key_index(self.entries@, k2);
                    assert(self.entries@[w].0 == k2);
                    assert(w < n);
                    assert(old(self).entries@[w].0 == k2);
                    self.lemma_key_index_unique(k2, w);
                    old(self).lemma_key_index_unique(k2, w);
                }
            }
            assert forall|k2: u64| #[trigger] old(self)@.insert(k, v).contains_key(k2)
                implies self@.contains_key(k2) by {
                if k2 == k {
                    assert(self.entries@[n as int].0 == k2);
                } else {
                    let w = spec_key_index(old(self).entries@, k2);
                    assert(self.entries@[w].0 == k2);
                }
            }
            assert(self@ =~= old(self)@.insert(k, v));
        }
    }
}

/// The count a counter map records for `k`: zero when absent.
pub open spec fn spec_count_of(m: Map<u64, usize>, k: u64) -> int {
    if m.contains_key(k) {
        m[k] as int
    } else {
        0
    }
}

/// Add one to the count recorded for `k`.
pub fn bump(m: &mut VecMap<usize>, k: u64)
    requires
        old(m).wf(),
        old(m).entries@.len() < usize::MAX,
        spec_count_of(old(m)@, k) < usize::MAX,
    ensures
        final(m).wf(),
        final(m)@ == old(m)@.insert(k, (spec_count_of(old(m)@, k) + 1) as usize),
        final(m).entries@.len() <= old(m).entries@.len() + 1,
        spec_count_of(final(m)@, k) == spec_count_of(old(m)@, k) + 1,
        forall|k2: u64| k2 != k ==> spec_count_of(final(m)@, k2) == spec_count_of(old(m)@, k2),
{
    let cur: usize = match m.get(k) {
        Some(c) => *c,
        None => 0,
    };
    m.insert(k, cur + 1);
}

/// Record `v` for `k` when it exceeds the value already recorded:
/// the table is a high-water mark and never decreases.
pub fn raise(m: &mut VecMap<u32>, k: u64, v: u32)
    requires
        old(m).wf(),
        old(m).entries@.len() < usize::MAX,
    ensures
        final(m).wf(),
        final(m)@ == if old(m)@.contains_key(k) && old(m)@[k] >= v {
            old(m)@
        } else {
            old(m)@.insert(k, v)
        },
        final(m).entries@.len() <= old(m).entries@.len() + 1,
{
    let replace: bool = match m.get(k) {
        Some(cur) => *cur < v,
        None => true,
    };
    if replace {
        m.insert(k, v);
    }
}

} // verus!
