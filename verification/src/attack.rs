//! One attack: a to-hit bonus and its damage on a hit or a critical.

use crate::damage::Damage;
use crate::ratio::Ratio;
use vstd::prelude::*;

verus! {

/// A single attack.
///
/// `dmg` is dealt on every qualifying hit, a critical included;
/// `crit` is extra damage dealt only on a critical, doubled the same
/// way as `dmg`'s dice.
#[derive(Debug, Default, Clone, Copy, PartialEq, Eq, Structural)]
pub struct Attack {
    /// Bonus added to the d20 roll when testing against the defense value.
    pub hit: i32,
    pub dmg: Damage,
    pub crit: Damage,
}

/// How many of the d20 faces 2 through 19 hit a target of defense `ac`
/// with bonus `hit`: the margin `20 + hit - ac` clamped to `[0, 18]`.
/// A natural 1 always misses and a natural 20 is the critical, counted
/// separately, so the ordinary hit chance is this count over twenty.
pub open spec fn spec_hit_count(hit: int, ac: int) -> int {
    let m = 20 + hit - ac;
    if m < 0 {
        0
    } else if m > 18 {
        18
    } else {
        m
    }
}

/// Expected damage of one attack against defense `ac`, in fortieths of a
/// point: the ordinary hit chance times the hit damage, plus one
/// twentieth of the critical damage of both damage values.
pub open spec fn spec_dmg40(a: Attack, ac: int) -> int {
    spec_hit_count(a.hit as int, ac) * a.dmg.spec_hit() + a.dmg.spec_crit() + a.crit.spec_crit()
}

/// Expected damage of one attack never exceeds this many fortieths:
/// 18 twentieths of the largest hit value plus two largest crit values.
pub open spec fn dmg40_bound() -> int {
    140000000000
}

impl Attack {
    /// Count of d20 faces 2 through 19 that hit defense `ac`; the
    /// ordinary (non-critical) hit chance is this value over twenty.
    pub fn hit_chance(&self, ac: i32) -> (r: i64)
        ensures
            r == spec_hit_count(self.hit as int, ac as int),
            0 <= r <= 18,
    {
        let m: i64 = 20 + self.hit as i64 - ac as i64;
        if m < 0 {
            0
        } else if m > 18 {
            18
        } else {
            m
        }
    }

    /// Field-wise sum of two attacks.
    pub open spec fn spec_plus(self, other: Attack) -> Attack {
        Attack {
            hit: (self.hit + other.hit) as i32,
            dmg: self.dmg.spec_plus(other.dmg),
            crit: self.crit.spec_plus(other.crit),
        }
    }

    /// Adding a damage value to an attack raises its on-hit damage and
    /// leaves the hit bonus and the critical bonus alone.
    pub open spec fn spec_plus_damage(self, d: Damage) -> Attack {
        Attack { hit: self.hit, dmg: self.dmg.spec_plus(d), crit: self.crit }
    }

    /// Whether combining `self` and `other` stays in range of the fields.
    pub open spec fn plus_fits(self, other: Attack) -> bool {
        &&& i32::MIN <= self.hit + other.hit <= i32::MAX
        &&& i32::MIN <= self.dmg.dmg + other.dmg.dmg <= i32::MAX
        &&& i32::MIN <= self.dmg.fixed + other.dmg.fixed <= i32::MAX
        &&& i32::MIN <= self.crit.dmg + other.crit.dmg <= i32::MAX
        &&& i32::MIN <= self.crit.fixed + other.crit.fixed <= i32::MAX
    }

    /// Combine two attacks: hit bonuses sum, damage values sum field-wise.
    pub fn plus(self, other: Attack) -> (r: Attack)
        requires
            self.plus_fits(other),
        ensures
            r == self.spec_plus(other),
    {
        Attack {
            hit: self.hit + other.hit,
            dmg: self.dmg.plus(other.dmg),
            crit: self.crit.plus(other.crit),
        }
    }

    /// Add a damage value to the attack's on-hit damage.
    pub fn plus_damage(self, d: Damage) -> (r: Attack)
        requires
            i32::MIN <= self.dmg.dmg + d.dmg <= i32::MAX,
            i32::MIN <= self.dmg.fixed + d.fixed <= i32::MAX,
        ensures
            r == self.spec_plus_damage(d),
    {
        Attack { hit: self.hit, dmg: self.dmg.plus(d), crit: self.crit }
    }

    /// The ranged power feat: trade five points of hit bonus for ten
    /// points of flat damage.
    pub fn sharpshooter(&self) -> (r: Attack)
        requires
            i32::MIN <= self.hit - 5,
            self.dmg.fixed + 10 <= i32::MAX,
        ensures
            r == self.spec_plus(
                Attack { hit: -5i32, dmg: Damage { dmg: 0, fixed: 10 }, crit: Damage { dmg: 0, fixed: 0 } },
            ),
            r.hit == self.hit - 5,
            r.dmg.dmg == self.dmg.dmg,
            r.dmg.fixed == self.dmg.fixed + 10,
            r.crit == self.crit,
    {
        self.plus(
            Attack { hit: -5, dmg: Damage { dmg: 0, fixed: 10 }, crit: Damage { dmg: 0, fixed: 0 } },
        )
    }

    /// Expected damage against defense `ac`, as an exact ratio with
    /// denominator forty.
    pub fn expected_damage(&self, ac: i32) -> (r: Ratio)
        ensures
            r.den == 40,
            r.num == spec_dmg40(*self, ac as int),
            r.wf(),
    {
        let hc = self.hit_chance(ac);
        let h = self.dmg.hit();
        proof {
            lemma_dmg40_bound(*self, ac as int);
            assert(hc * h <= 18 * 0x1_8000_0000i64 && hc * h >= -18 * 0x1_8000_0000i64)
                by (nonlinear_arith)
                requires
                    0 <= hc <= 18,
                    -0x1_8000_0000i64 <= h <= 0x1_8000_0000i64,
            ;
        }
        let num: i64 = hc * h + self.dmg.crit() + self.crit.crit();
        Ratio { num: num as i128, den: 40 }
    }
}

/// Expected attack damage, in fortieths, is bounded by [`dmg40_bound`].
pub proof fn lemma_dmg40_bound(a: Attack, ac: int)
    ensures
        -dmg40_bound() <= spec_dmg40(a, ac) <= dmg40_bound(),
{
    let c = spec_hit_count(a.hit as int, ac);
    let h = a.dmg.spec_hit();
    assert(c * h <= 18 * 0x1_8000_0000 && c * h >= -18 * 0x1_8000_0000) by (nonlinear_arith)
        requires
            0 <= c <= 18,
            -0x1_8000_0000 <= h <= 0x1_8000_0000,
    ;
}

} // verus!

