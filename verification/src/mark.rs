//! The sustained-mark buff and its break-even analysis.
//!
//! Casting the mark costs the round's secondary-action attacks; from the
//! next round on, every attack carries one extra six-sided die. The
//! analyzer compares the three variants of the round and says how many
//! rounds the buff needs to pay back the damage given up when casting it.

use crate::attack::Attack;
use crate::damage::Damage;
use crate::dice::d6;
use crate::ratio::ceil_div;
use crate::ratio::spec_ceil_div;
use crate::ratio::Ratio;
use crate::turn::copy_attacks;
use crate::turn::lemma_pow20_adds;
use crate::turn::lemma_pow20_mono;
use crate::turn::lemma_pow20_value;
use crate::turn::lemma_turn_num_bound;
use crate::turn::pow20;
use crate::turn::pow20_exec;
use crate::turn::Turn;
use vstd::prelude::*;

verus! {

/// The three variants of one round under the sustained-mark buff: the
/// round untouched, the round the buff is cast (no secondary-action
/// attacks), and every later round (each attack carries the extra die).
#[derive(Debug)]
pub struct HuntersMark {
    pub unmodified: Turn,
    pub first_turn: Turn,
    pub max_damage: Turn,
}

impl HuntersMark {
    /// The shape [`Turn::mark`] establishes: the cast round keeps the
    /// primary attacks and loses the secondary ones, and the sustained
    /// round has the same attack counts as the unmodified round.
    pub open spec fn wf(self) -> bool {
        &&& self.first_turn.action@ == self.unmodified.action@
        &&& self.first_turn.bonus_action@.len() == 0
        &&& self.max_damage.action@.len() == self.unmodified.action@.len()
        &&& self.max_damage.bonus_action@.len() == self.unmodified.bonus_action@.len()
    }
}

impl Turn {
    /// The sustained-mark buff applied to this round: the unmodified
    /// round, the cast round without its secondary-action attacks, and
    /// the sustained round with one six-sided die added to every
    /// attack's on-hit damage. The once-per-round damage is unchanged
    /// in all three.
    pub fn mark(&self) -> (r: HuntersMark)
        requires
            forall|k: int|
                0 <= k < self.action@.len() ==> #[trigger] self.action@[k].dmg.dmg + d6
                    <= i32::MAX,
            forall|k: int|
                0 <= k < self.bonus_action@.len() ==> #[trigger] self.bonus_action@[k].dmg.dmg + d6
                    <= i32::MAX,
        ensures
            r.unmodified.action@ == self.action@,
            r.unmodified.bonus_action@ == self.bonus_action@,
            r.unmodified.once_on_hit == self.once_on_hit,
            r.first_turn.action@ == self.action@,
            r.first_turn.bonus_action@.len() == 0,
            r.first_turn.once_on_hit == self.once_on_hit,
            r.max_damage.action@ == self.action@.map_values(
                |a: Attack| a.spec_plus_damage(Damage { dmg: d6, fixed: 0 }),
            ),
            r.max_damage.bonus_action@ == self.bonus_action@.map_values(
                |a: Attack| a.spec_plus_damage(Damage { dmg: d6, fixed: 0 }),
            ),
            r.max_damage.once_on_hit == self.once_on_hit,
            r.wf(),
    {
        let bonus = Damage { dmg: d6, fixed: 0 };
        HuntersMark {
            unmodified: self.clone(),
            first_turn: Turn {
                action: copy_attacks(&self.action),
                bonus_action: Vec::new(),
                once_on_hit: self.once_on_hit,
            },
            max_damage: self.plus_damage(bonus),
        }
    }
}

/// Scaling the cast round's numerator by twenty per missing secondary
/// attack moves it onto the unmodified round's denominator without
/// changing its value: the scaled numerator over the unmodified
/// denominator and the plain numerator over the cast round's own
/// denominator are the same rational (their cross products are equal).
pub proof fn lemma_first_turn_scaling(h: HuntersMark, ac: int)
    requires
        h.wf(),
    ensures
        (h.first_turn.spec_num(ac) * pow20(h.unmodified.bonus_action@.len())) * h.first_turn.spec_den()
            == h.first_turn.spec_num(ac) * h.unmodified.spec_den(),
{
    let f = h.first_turn.spec_num(ac);
    let m = h.first_turn.spec_len();
    let nb = h.unmodified.bonus_action@.len();
    assert(h.first_turn.spec_attacks() =~= h.first_turn.action@);
    assert(h.unmodified.spec_len() == m + nb);
    lemma_pow20_adds(m, nb);
    assert((f * pow20(nb)) * (2 * pow20(m)) == f * (2 * (pow20(m) * pow20(nb))))
        by (nonlinear_arith);
}

impl HuntersMark {
    /// Break-even analysis against defense `ac`.
    ///
    /// Returns the sustained round's expected damage, the number of
    /// rounds (cast round included) after which the sustained gain has
    /// recovered the cast round's loss, and that loss (the cast round's
    /// expected damage minus the unmodified round's, negative when
    /// casting costs damage). All three expectations are put over the
    /// unmodified round's denominator, which the well-formedness shape
    /// makes common: the cast round's numerator is scaled by twenty for
    /// each secondary-action attack it gave up. When the sustained round
    /// deals exactly the unmodified damage there is no gain to recover
    /// the loss and no break-even round exists: the round count is
    /// `None`.
    pub fn breakeven(&self, ac: i32) -> (r: (Ratio, Option<i128>, Ratio))
        requires
            self.wf(),
            self.unmodified.spec_len() <= 20,
        ensures
            r.0.wf(),
            r.0.den == self.max_damage.spec_den(),
            r.0.num == self.max_damage.spec_num(ac as int),
            r.2.wf(),
            r.2.den == self.unmodified.spec_den(),
            r.2.num == self.first_turn.spec_num(ac as int) * pow20(
                self.unmodified.bonus_action@.len(),
            ) - self.unmodified.spec_num(ac as int),
            (r.1 is None) <==> self.max_damage.spec_num(ac as int) == self.unmodified.spec_num(
                ac as int,
            ),
            r.1 matches Some(k) ==> k == 1 + spec_ceil_div(
                self.unmodified.spec_num(ac as int) - self.first_turn.spec_num(ac as int) * pow20(
                    self.unmodified.bonus_action@.len(),
                ),
                self.max_damage.spec_num(ac as int) - self.unmodified.spec_num(ac as int),
            ),
    {
        let base = self.unmodified.expected_damage(ac);
        let first = self.first_turn.expected_damage(ac);
        let maxv = self.max_damage.expected_damage(ac);
        let nb = self.unmodified.bonus_action.len();
        let scale = pow20_exec(nb);
        proof {
            let na = self.unmodified.action@.len();
            lemma_turn_num_bound(self.first_turn, ac as int);
            lemma_turn_num_bound(self.unmodified, ac as int);
            lemma_turn_num_bound(self.max_damage, ac as int);
            lemma_pow20_adds(na, nb as nat);
            lemma_pow20_mono((na + nb) as nat, 20);
            lemma_pow20_value();
            assert(first.num * scale <= 150000000000 * (pow20(na) * pow20(nb as nat)) && first.num
                * scale >= -150000000000 * (pow20(na) * pow20(nb as nat))) by (nonlinear_arith)
                requires
                    -150000000000 * pow20(na) <= first.num <= 150000000000 * pow20(na),
                    scale == pow20(nb as nat),
                    scale >= 1,
                    pow20(na) >= 1,
            ;
            assert(150000000000 * pow20((na + nb) as nat) <= 150000000000
                * 104857600000000000000000000);
        }
        let first_scaled = first.num * scale;
        let deficit = Ratio { num: first_scaled - base.num, den: base.den };
        let gain = maxv.num - base.num;
        let rounds: Option<i128> = if gain == 0 {
            None
        } else {
            Some(1 + ceil_div(base.num - first_scaled, gain))
        };
        proof {
            assert(self.max_damage.spec_len() == self.unmodified.spec_len());
        }
        (maxv, rounds, deficit)
    }
}

} // verus!
