//! The per-unit observation record: the plain values of one reported
//! unit that classification and the counters read.

use vstd::prelude::*;
use crate::geom::Point;

verus! {

/// Whose side a reported unit is on.
#[derive(Clone, Copy, Debug, PartialEq, Eq, Structural)]
pub enum Alliance {
    Own,
    Ally,
    Neutral,
    Enemy,
}

/// One unit as reported by a snapshot. Weapon cooldown is a
/// fixed-point value in milli-frames; `None` when the unit has no
/// weapon on cooldown report.
#[derive(Clone, Copy, Debug)]
pub struct Unit {
    pub tag: u64,
    pub type_id: u32,
    pub alliance: Alliance,
    pub is_structure: bool,
    pub is_ready: bool,
    pub is_placeholder: bool,
    pub position: Point,
    pub weapon_cooldown: Option<u32>,
}

/// One active order of a snapshot, tied to the issuing unit by tag.
#[derive(Clone, Copy, Debug, PartialEq, Eq, Structural)]
pub struct UnitOrder {
    pub tag: u64,
    pub ability: u32,
}

impl Unit {
    pub open spec fn wf(self) -> bool {
        self.position.wf() && self.position.nonneg()
    }

    pub open spec fn is_mine(self) -> bool {
        self.alliance is Own
    }

    pub open spec fn is_enemy(self) -> bool {
        self.alliance is Enemy
    }

    pub open spec fn is_neutral(self) -> bool {
        self.alliance is Neutral
    }

    /// Field-by-field equality.
    pub open spec fn spec_same(self, other: Unit) -> bool {
        self.tag == other.tag && self.type_id == other.type_id
            && self.alliance == other.alliance && self.is_structure == other.is_structure
            && self.is_ready == other.is_ready && self.is_placeholder == other.is_placeholder
            && self.position == other.position && self.weapon_cooldown == other.weapon_cooldown
    }

    pub fn same(&self, other: &Unit) -> (r: bool)
        ensures
            r == self.spec_same(*other),
            r == (*self == *other),
    {
        let cd_same: bool = match (self.weapon_cooldown, other.weapon_cooldown) {
            (None, None) => true,
            (Some(a), Some(b)) => a == b,
            _ => false,
        };
        let alliance_same: bool = match (self.alliance, other.alliance) {
            (Alliance::Own, Alliance::Own) => true,
            (Alliance::Ally, Alliance::Ally) => true,
            (Alliance::Neutral, Alliance::Neutral) => true,
            (Alliance::Enemy, Alliance::Enemy) => true,
            _ => false,
        };
        let r = self.tag == other.tag && self.type_id == other.type_id && alliance_same
            && self.is_structure == other.is_structure && self.is_ready == other.is_ready
            && self.is_placeholder == other.is_placeholder && self.position.x == other.position.x
            && self.position.y == other.position.y && cd_same;
        proof {
            if r {
                assert(self.position == other.position);
            }
        }
        r
    }
}

/// Element-wise equality of two unit lists.
pub fn units_same(a: &Vec<Unit>, b: &Vec<Unit>) -> (r: bool)
    ensures
        r == (a@ =~= b@),
{
    if a.len() != b.len() {
        return false;
    }
    let n: usize = a.len();
    let mut i: usize = 0;
    while i < n
        invariant
            i <= n,
            n == a@.len() == b@.len(),
            forall|k: int| 0 <= k < i ==> a@[k] == b@[k],
        decreases n - i,
    {
        if !a[i].same(&b[i]) {
            return false;
        }
        i = i + 1;
    }
    true
}

} // verus!
