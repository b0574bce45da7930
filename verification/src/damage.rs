//! A single damage value: dice plus a flat modifier.

use vstd::prelude::*;

verus! {

/// Damage dealt by one source.
///
/// `dmg` is the expected value of the dice, in half-points (a d6 counts
/// as 7); it is doubled on a critical hit. `fixed` is a flat modifier in
/// whole points, added once and never doubled.
#[derive(Debug, Default, Clone, Copy, PartialEq, Eq, Structural)]
pub struct Damage {
    pub dmg: i32,
    pub fixed: i32,
}

impl Damage {
    /// Damage dealt on an ordinary hit, in half-points.
    pub open spec fn spec_hit(self) -> int {
        self.dmg + 2 * self.fixed
    }

    /// Damage dealt on a critical hit, in half-points: the dice are
    /// doubled, the flat modifier is not.
    pub open spec fn spec_crit(self) -> int {
        self.dmg + self.spec_hit()
    }

    /// Field-wise sum of two damage values.
    pub open spec fn spec_plus(self, other: Damage) -> Damage {
        Damage { dmg: (self.dmg + other.dmg) as i32, fixed: (self.fixed + other.fixed) as i32 }
    }

    /// Damage dealt on an ordinary hit, in half-points.
    pub fn hit(&self) -> (r: i64)
        ensures
            r == self.spec_hit(),
    {
        self.dmg as i64 + 2 * (self.fixed as i64)
    }

    /// Damage dealt on a critical hit, in half-points.
    pub fn crit(&self) -> (r: i64)
        ensures
            r == self.spec_crit(),
    {
        self.dmg as i64 + self.hit()
    }

    /// Combine two damage values: dice add to dice, flat to flat.
    pub fn plus(self, other: Damage) -> (r: Damage)
        requires
            i32::MIN <= self.dmg + other.dmg <= i32::MAX,
            i32::MIN <= self.fixed + other.fixed <= i32::MAX,
        ensures
            r == self.spec_plus(other),
            r.dmg == self.dmg + other.dmg,
            r.fixed == self.fixed + other.fixed,
    {
        Damage { dmg: self.dmg + other.dmg, fixed: self.fixed + other.fixed }
    }
}

/// Combining damage values is commutative.
pub proof fn lemma_damage_plus_comm(a: Damage, b: Damage)
    ensures
        a.spec_plus(b) == b.spec_plus(a),
{
}

/// Combining damage values is associative, wherever the sums stay in
/// range of the fields.
pub proof fn lemma_damage_plus_assoc(a: Damage, b: Damage, c: Damage)
    requires
        i32::MIN <= a.dmg + b.dmg <= i32::MAX,
        i32::MIN <= b.dmg + c.dmg <= i32::MAX,
        i32::MIN <= a.dmg + b.dmg + c.dmg <= i32::MAX,
        i32::MIN <= a.fixed + b.fixed <= i32::MAX,
        i32::MIN <= b.fixed + c.fixed <= i32::MAX,
        i32::MIN <= a.fixed + b.fixed + c.fixed <= i32::MAX,
    ensures
        a.spec_plus(b).spec_plus(c) == a.spec_plus(b.spec_plus(c)),
{
}

} // verus!
