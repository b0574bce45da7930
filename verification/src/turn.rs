//! One full round of attacks and its expected damage.
//!
//! A round is a sequence of primary-action attacks followed by
//! secondary-action attacks, plus a once-per-round damage value that
//! triggers on the first qualifying hit. Probabilities are twentieths,
//! so with `n` attacks every quantity is an integer over `20^n`, and the
//! result is exact: an integer over `2 * 20^n` half-point denominators.

use crate::attack::dmg40_bound;
use crate::attack::lemma_dmg40_bound;
use crate::attack::spec_dmg40;
use crate::attack::spec_hit_count;
use crate::attack::Attack;
use crate::damage::Damage;
use crate::dice::d4;
use crate::ratio::Ratio;
use vstd::prelude::*;

verus! {

/// One round: primary-action attacks, secondary-action attacks, and a
/// damage value applied at most once per round, on the first attack that
/// hits or crits (primary attacks trigger it before secondary ones).
#[derive(Debug, Default)]
pub struct Turn {
    pub action: Vec<Attack>,
    pub bonus_action: Vec<Attack>,
    pub once_on_hit: Damage,
}

/// Twenty to the power `e`.
pub open spec fn pow20(e: nat) -> int
    decreases e,
{
    if e == 0 {
        1
    } else {
        20 * pow20((e - 1) as nat)
    }
}

/// Numerator over `20^len` of the probability that every attack in `s`
/// misses outright (neither hits nor crits).
pub open spec fn spec_miss_num(s: Seq<Attack>, ac: int) -> int
    decreases s.len(),
{
    if s.len() == 0 {
        1
    } else {
        spec_miss_num(s.drop_last(), ac) * (19 - spec_hit_count(s.last().hit as int, ac))
    }
}

/// Numerator over `20^len` of the probability that some attack in `s` is
/// the first qualifying one and it is a critical: each attack contributes
/// one twentieth times the chance that all before it missed outright.
pub open spec fn spec_first_crit_num(s: Seq<Attack>, ac: int) -> int
    decreases s.len(),
{
    if s.len() == 0 {
        0
    } else {
        spec_first_crit_num(s.drop_last(), ac) * 20 + spec_miss_num(s.drop_last(), ac)
    }
}

/// Sum of the attacks' expected damages, in fortieths of a point.
pub open spec fn spec_total40(s: Seq<Attack>, ac: int) -> int
    decreases s.len(),
{
    if s.len() == 0 {
        0
    } else {
        spec_total40(s.drop_last(), ac) + spec_dmg40(s.last(), ac)
    }
}

impl Turn {
    /// All attacks of the round, in triggering order.
    pub open spec fn spec_attacks(self) -> Seq<Attack> {
        self.action@ + self.bonus_action@
    }

    /// Number of attacks in the round.
    pub open spec fn spec_len(self) -> nat {
        self.spec_attacks().len()
    }

    /// Denominator of the round's expected damage: two (half-points)
    /// times twenty for each attack.
    pub open spec fn spec_den(self) -> int {
        2 * pow20(self.spec_len())
    }

    /// Numerator of the round's expected damage over [`Turn::spec_den`]:
    /// the attacks' own expected damage, plus the once-per-round hit
    /// value weighted by the chance that any attack qualifies, plus the
    /// once-per-round dice weighted by the chance that the first
    /// qualifying attack is a critical.
    pub open spec fn spec_num(self, ac: int) -> int {
        let s = self.spec_attacks();
        let n = s.len();
        (if n == 0 {
            0
        } else {
            spec_total40(s, ac) * pow20((n - 1) as nat)
        }) + (pow20(n) - spec_miss_num(s, ac)) * self.once_on_hit.spec_hit() + spec_first_crit_num(
            s,
            ac,
        ) * self.once_on_hit.dmg
    }
}

/// `pow20` is positive.
pub proof fn lemma_pow20_pos(e: nat)
    ensures
        pow20(e) >= 1,
    decreases e,
{
    if e > 0 {
        lemma_pow20_pos((e - 1) as nat);
    }
}

/// `pow20` does not decrease as the exponent grows.
pub proof fn lemma_pow20_mono(e1: nat, e2: nat)
    requires
        e1 <= e2,
    ensures
        pow20(e1) <= pow20(e2),
    decreases e2 - e1,
{
    if e1 < e2 {
        lemma_pow20_mono(e1, (e2 - 1) as nat);
        lemma_pow20_pos((e2 - 1) as nat);
    }
}

/// The numeric value of `20^20`, the largest power a round of twenty
/// attacks needs.
pub proof fn lemma_pow20_value()
    ensures
        pow20(20) == 104857600000000000000000000,
{
    reveal_with_fuel(pow20, 21);
}

/// Bounds that every prefix of the miss chain obeys: the miss numerator
/// is at least one (a natural 1 always misses), the first-crit weight is
/// a probability mass disjoint from the all-miss mass, and the damage
/// total is at most the per-attack bound per attack.
pub proof fn lemma_chain_bounds(s: Seq<Attack>, ac: int)
    ensures
        1 <= spec_miss_num(s, ac),
        0 <= spec_first_crit_num(s, ac),
        spec_first_crit_num(s, ac) + spec_miss_num(s, ac) <= pow20(s.len()),
        -(s.len() as int) * dmg40_bound() <= spec_total40(s, ac) <= (s.len() as int)
            * dmg40_bound(),
    decreases s.len(),
{
    if s.len() > 0 {
        let p = s.drop_last();
        lemma_chain_bounds(p, ac);
        lemma_dmg40_bound(s.last(), ac);
        let c = spec_hit_count(s.last().hit as int, ac);
        let miss = spec_miss_num(p, ac);
        let fc = spec_first_crit_num(p, ac);
        assert(1 <= miss * (19 - c) && fc * 20 + miss + miss * (19 - c) <= 20 * (fc + miss))
            by (nonlinear_arith)
            requires
                1 <= miss,
                0 <= fc,
                0 <= c <= 18,
        ;
        lemma_pow20_pos(p.len());
        assert(20 * (fc + miss) <= 20 * pow20(p.len()));
        assert(pow20(s.len()) == 20 * pow20(p.len()));
    }
}

/// `pow20` turns addition of exponents into multiplication.
pub proof fn lemma_pow20_adds(e1: nat, e2: nat)
    ensures
        pow20(e1 + e2) == pow20(e1) * pow20(e2),
    decreases e1,
{
    if e1 == 0 {
        lemma_pow20_pos(e2);
    } else {
        lemma_pow20_adds((e1 - 1) as nat, e2);
        assert(pow20(e1 + e2) == 20 * (pow20((e1 - 1) as nat) * pow20(e2)));
        assert(20 * (pow20((e1 - 1) as nat) * pow20(e2)) == (20 * pow20((e1 - 1) as nat)) * pow20(
            e2,
        )) by (nonlinear_arith);
    }
}

/// Twenty to the power `e`, computed exactly.
pub(crate) fn pow20_exec(e: usize) -> (r: i128)
    requires
        e <= 20,
    ensures
        r == pow20(e as nat),
        r >= 1,
{
    let mut r: i128 = 1;
    let mut j: usize = 0;
    while j < e
        invariant
            j <= e <= 20,
            r == pow20(j as nat),
            r >= 1,
        decreases e - j,
    {
        proof {
            lemma_pow20_mono(j as nat, 19);
            lemma_pow20_mono(19, 20);
            lemma_pow20_value();
        }
        r = r * 20;
        j += 1;
    }
    r
}

impl Turn {
    /// Expected damage of the whole round against defense `ac`, as an
    /// exact ratio over `2 * 20^n` for `n` attacks: one forward pass
    /// keeps the probability that every attack so far missed outright
    /// and the accumulated first-crit weight, then adds the
    /// once-per-round damage weighted by those masses. The round may
    /// hold at most twenty attacks, so that the exact numerator always
    /// fits a machine integer.
    pub fn expected_damage(&self, ac: i32) -> (r: Ratio)
        requires
            self.action@.len() + self.bonus_action@.len() <= 20,
        ensures
            r.wf(),
            r.den == self.spec_den(),
            r.num == self.spec_num(ac as int),
    {
        let ghost all = self.spec_attacks();
        let mut total: i128 = 0;
        let mut miss: i128 = 1;
        let mut fc: i128 = 0;

        let mut i: usize = 0;
        proof {
            assert(self.action@.take(0) =~= Seq::<Attack>::empty());
        }
        while i < self.action.len()
            invariant
                i <= self.action@.len(),
                self.action@.len() + self.bonus_action@.len() <= 20,
                total == spec_total40(self.action@.take(i as int), ac as int),
                miss == spec_miss_num(self.action@.take(i as int), ac as int),
                fc == spec_first_crit_num(self.action@.take(i as int), ac as int),
            decreases self.action@.len() - i,
        {
            let ghost prefix = self.action@.take(i as int);
            let a = self.action[i];
            proof {
                step_bounds(prefix, a, ac as int);
                assert(self.action@.take(i as int + 1) =~= prefix.push(a));
            }
            let e = a.expected_damage(ac);
            total = total + e.num;
            let hc = a.hit_chance(ac);
            let step = fc * 20 + miss;
            miss = miss * ((19 - hc) as i128);
            fc = step;
            i = i + 1;
        }
        proof {
            assert(self.action@.take(self.action@.len() as int) =~= self.action@);
            assert(self.action@ + self.bonus_action@.take(0) =~= self.action@);
        }

        let mut j: usize = 0;
        while j < self.bonus_action.len()
            invariant
                j <= self.bonus_action@.len(),
                self.action@.len() + self.bonus_action@.len() <= 20,
                total == spec_total40(self.action@ + self.bonus_action@.take(j as int), ac as int),
                miss == spec_miss_num(self.action@ + self.bonus_action@.take(j as int), ac as int),
                fc == spec_first_crit_num(
                    self.action@ + self.bonus_action@.take(j as int),
                    ac as int,
                ),
            decreases self.bonus_action@.len() - j,
        {
            let ghost prefix = self.action@ + self.bonus_action@.take(j as int);
            let a = self.bonus_action[j];
            proof {
                step_bounds(prefix, a, ac as int);
                assert(self.action@ + self.bonus_action@.take(j as int + 1) =~= prefix.push(a));
            }
            let e = a.expected_damage(ac);
            total = total + e.num;
            let hc = a.hit_chance(ac);
            let step = fc * 20 + miss;
            miss = miss * ((19 - hc) as i128);
            fc = step;
            j = j + 1;
        }
        proof {
            assert(self.action@ + self.bonus_action@.take(self.bonus_action@.len() as int)
                =~= all);
        }

        let n: usize = self.action.len() + self.bonus_action.len();
        if n == 0 {
            proof {
                assert(all =~= Seq::<Attack>::empty());
                let h = self.once_on_hit.spec_hit();
                let dm = self.once_on_hit.dmg as int;
                assert((pow20(all.len()) - spec_miss_num(all, ac as int)) * h == 0
                    && spec_first_crit_num(all, ac as int) * dm == 0) by (nonlinear_arith)
                    requires
                        pow20(all.len()) == spec_miss_num(all, ac as int),
                        spec_first_crit_num(all, ac as int) == 0,
                ;
            }
            return Ratio { num: 0, den: 2 };
        }
        let p_n = pow20_exec(n);
        let p_n1 = pow20_exec(n - 1);
        let oh = self.once_on_hit.hit();
        let od = self.once_on_hit.dmg;
        proof {
            lemma_chain_bounds(all, ac as int);
            lemma_pow20_mono((n - 1) as nat, 19);
            lemma_pow20_mono(n as nat, 20);
            lemma_pow20_value();
            assert(-2800000000000 <= total <= 2800000000000);
            assert(total * p_n1 <= 2800000000000 * 5242880000000000000000000 && total * p_n1
                >= -2800000000000 * 5242880000000000000000000) by (nonlinear_arith)
                requires
                    -2800000000000 <= total <= 2800000000000,
                    1 <= p_n1 <= 5242880000000000000000000,
            ;
            assert((p_n - miss) * oh <= 104857600000000000000000000 * 0x1_8000_0000i64 && (p_n
                - miss) * oh >= -104857600000000000000000000 * 0x1_8000_0000i64)
                by (nonlinear_arith)
                requires
                    0 <= p_n - miss <= 104857600000000000000000000i128,
                    -0x1_8000_0000i64 <= oh <= 0x1_8000_0000i64,
            ;
            assert(fc * od <= 104857600000000000000000000 * 0x8000_0000i64 && fc * od
                >= -104857600000000000000000000 * 0x8000_0000i64) by (nonlinear_arith)
                requires
                    0 <= fc <= 104857600000000000000000000i128,
                    -0x8000_0000i64 <= od <= 0x8000_0000i64,
            ;
        }
        let num = total * p_n1 + (p_n - miss) * (oh as i128) + fc * (od as i128);
        Ratio { num, den: 2 * p_n }
    }
}

/// Copy of a vector of attacks.
pub(crate) fn copy_attacks(v: &Vec<Attack>) -> (r: Vec<Attack>)
    ensures
        r@ == v@,
{
    let mut r: Vec<Attack> = Vec::new();
    let mut i: usize = 0;
    while i < v.len()
        invariant
            i <= v@.len(),
            r@ =~= v@.take(i as int),
        decreases v@.len() - i,
    {
        r.push(v[i]);
        proof {
            assert(v@.take(i as int + 1) =~= v@.take(i as int).push(v@[i as int]));
        }
        i = i + 1;
    }
    proof {
        assert(v@.take(v@.len() as int) =~= v@);
    }
    r
}

/// Each attack of `v` combined with `add`.
fn attacks_plus(v: &Vec<Attack>, add: Attack) -> (r: Vec<Attack>)
    requires
        forall|k: int| 0 <= k < v@.len() ==> v@[k].plus_fits(add),
    ensures
        r@ == v@.map_values(|a: Attack| a.spec_plus(add)),
{
    let mut r: Vec<Attack> = Vec::new();
    let mut i: usize = 0;
    while i < v.len()
        invariant
            i <= v@.len(),
            forall|k: int| 0 <= k < v@.len() ==> v@[k].plus_fits(add),
            r@ =~= v@.take(i as int).map_values(|a: Attack| a.spec_plus(add)),
        decreases v@.len() - i,
    {
        r.push(v[i].plus(add));
        proof {
            assert(r@ =~= v@.take(i as int + 1).map_values(|a: Attack| a.spec_plus(add)));
        }
        i = i + 1;
    }
    proof {
        assert(v@.take(v@.len() as int) =~= v@);
    }
    r
}

/// Each attack of `v` with `add` added to its on-hit damage.
fn attacks_plus_damage(v: &Vec<Attack>, add: Damage) -> (r: Vec<Attack>)
    requires
        forall|k: int|
            0 <= k < v@.len() ==> i32::MIN <= #[trigger] v@[k].dmg.dmg + add.dmg <= i32::MAX
                && i32::MIN <= v@[k].dmg.fixed + add.fixed <= i32::MAX,
    ensures
        r@ == v@.map_values(|a: Attack| a.spec_plus_damage(add)),
{
    let mut r: Vec<Attack> = Vec::new();
    let mut i: usize = 0;
    while i < v.len()
        invariant
            i <= v@.len(),
            forall|k: int|
                0 <= k < v@.len() ==> i32::MIN <= #[trigger] v@[k].dmg.dmg + add.dmg <= i32::MAX
                    && i32::MIN <= v@[k].dmg.fixed + add.fixed <= i32::MAX,
            r@ =~= v@.take(i as int).map_values(|a: Attack| a.spec_plus_damage(add)),
        decreases v@.len() - i,
    {
        r.push(v[i].plus_damage(add));
        proof {
            assert(r@ =~= v@.take(i as int + 1).map_values(|a: Attack| a.spec_plus_damage(add)));
        }
        i = i + 1;
    }
    proof {
        assert(v@.take(v@.len() as int) =~= v@);
    }
    r
}

impl Clone for Turn {
    /// An exact copy of the round.
    fn clone(&self) -> (r: Turn)
        ensures
            r.action@ == self.action@,
            r.bonus_action@ == self.bonus_action@,
            r.once_on_hit == self.once_on_hit,
    {
        Turn {
            action: copy_attacks(&self.action),
            bonus_action: copy_attacks(&self.bonus_action),
            once_on_hit: self.once_on_hit,
        }
    }
}

impl Turn {
    /// What two equal rounds share: the same attacks in the same order
    /// and the same once-per-round damage.
    pub open spec fn eq_spec(self, other: Turn) -> bool {
        self.action@ == other.action@ && self.bonus_action@ == other.bonus_action@
            && self.once_on_hit == other.once_on_hit
    }
}

/// Whether two attack vectors hold the same attacks in the same order.
fn attacks_eq(a: &Vec<Attack>, b: &Vec<Attack>) -> (r: bool)
    ensures
        r == (a@ == b@),
{
    if a.len() != b.len() {
        return false;
    }
    let mut i: usize = 0;
    while i < a.len()
        invariant
            i <= a@.len(),
            a@.len() == b@.len(),
            forall|k: int| 0 <= k < i ==> a@[k] == b@[k],
        decreases a@.len() - i,
    {
        if a[i] != b[i] {
            return false;
        }
        i = i + 1;
    }
    proof {
        assert(a@ =~= b@);
    }
    true
}

impl PartialEq for Turn {
    fn eq(&self, other: &Turn) -> (r: bool) {
        attacks_eq(&self.action, &other.action) && attacks_eq(
            &self.bonus_action,
            &other.bonus_action,
        ) && self.once_on_hit == other.once_on_hit
    }
}

impl vstd::std_specs::cmp::PartialEqSpecImpl for Turn {
    open spec fn obeys_eq_spec() -> bool {
        true
    }

    open spec fn eq_spec(&self, other: &Turn) -> bool {
        Turn::eq_spec(*self, *other)
    }
}

impl Turn {
    /// Combine an attack onto every attack of the round: a character
    /// modifier applied to each attack taken this round.
    pub fn plus_attack(&self, add: Attack) -> (r: Turn)
        requires
            forall|k: int|
                0 <= k < self.action@.len() ==> #[trigger] self.action@[k].plus_fits(add),
            forall|k: int|
                0 <= k < self.bonus_action@.len() ==> #[trigger] self.bonus_action@[k].plus_fits(
                    add,
                ),
        ensures
            r.action@ == self.action@.map_values(|a: Attack| a.spec_plus(add)),
            r.bonus_action@ == self.bonus_action@.map_values(|a: Attack| a.spec_plus(add)),
            r.once_on_hit == self.once_on_hit,
    {
        Turn {
            action: attacks_plus(&self.action, add),
            bonus_action: attacks_plus(&self.bonus_action, add),
            once_on_hit: self.once_on_hit,
        }
    }

    /// Add a damage value to the on-hit damage of every attack of the
    /// round; the once-per-round damage is untouched.
    pub fn plus_damage(&self, add: Damage) -> (r: Turn)
        requires
            forall|k: int|
                0 <= k < self.action@.len() ==> i32::MIN <= #[trigger] self.action@[k].dmg.dmg
                    + add.dmg <= i32::MAX && i32::MIN <= self.action@[k].dmg.fixed + add.fixed
                    <= i32::MAX,
            forall|k: int|
                0 <= k < self.bonus_action@.len() ==> i32::MIN
                    <= #[trigger] self.bonus_action@[k].dmg.dmg + add.dmg <= i32::MAX && i32::MIN
                    <= self.bonus_action@[k].dmg.fixed + add.fixed <= i32::MAX,
        ensures
            r.action@ == self.action@.map_values(|a: Attack| a.spec_plus_damage(add)),
            r.bonus_action@ == self.bonus_action@.map_values(|a: Attack| a.spec_plus_damage(add)),
            r.once_on_hit == self.once_on_hit,
    {
        Turn {
            action: attacks_plus_damage(&self.action, add),
            bonus_action: attacks_plus_damage(&self.bonus_action, add),
            once_on_hit: self.once_on_hit,
        }
    }

    /// The favored-target buff: one four-sided die of damage on the
    /// once-per-round trigger; every attack is left unchanged.
    pub fn foe(&self) -> (r: Turn)
        requires
            self.once_on_hit.dmg + d4 <= i32::MAX,
        ensures
            r.action@ == self.action@,
            r.bonus_action@ == self.bonus_action@,
            r.once_on_hit.dmg == self.once_on_hit.dmg + d4,
            r.once_on_hit.fixed == self.once_on_hit.fixed,
    {
        Turn {
            action: copy_attacks(&self.action),
            bonus_action: copy_attacks(&self.bonus_action),
            once_on_hit: self.once_on_hit.plus(Damage { dmg: d4, fixed: 0 }),
        }
    }
}

/// Overflow and spec facts for one step of the miss chain: the chain
/// values of the extended prefix are the stated updates of the old ones,
/// and everything stays well inside `i128`.
proof fn step_bounds(prefix: Seq<Attack>, a: Attack, ac: int)
    requires
        prefix.len() <= 19,
    ensures
        spec_total40(prefix.push(a), ac) == spec_total40(prefix, ac) + spec_dmg40(a, ac),
        spec_miss_num(prefix.push(a), ac) == spec_miss_num(prefix, ac) * (19 - spec_hit_count(
            a.hit as int,
            ac,
        )),
        spec_first_crit_num(prefix.push(a), ac) == spec_first_crit_num(prefix, ac) * 20
            + spec_miss_num(prefix, ac),
        1 <= spec_miss_num(prefix, ac) <= 104857600000000000000000000,
        0 <= spec_first_crit_num(prefix, ac) <= 104857600000000000000000000,
        1 <= spec_miss_num(prefix, ac) * (19 - spec_hit_count(a.hit as int, ac))
            <= 19 * 104857600000000000000000000,
        0 <= spec_first_crit_num(prefix, ac) * 20 + spec_miss_num(prefix, ac)
            <= 20 * 104857600000000000000000000,
        -20 * dmg40_bound() <= spec_total40(prefix, ac) + spec_dmg40(a, ac) <= 20 * dmg40_bound(),
{
    let ext = prefix.push(a);
    assert(ext.drop_last() =~= prefix);
    assert(ext.last() == a);
    lemma_chain_bounds(prefix, ac);
    lemma_dmg40_bound(a, ac);
    lemma_pow20_mono(prefix.len(), 20);
    lemma_pow20_value();
    let miss = spec_miss_num(prefix, ac);
    let c = spec_hit_count(a.hit as int, ac);
    assert(1 <= miss * (19 - c) <= 19 * 104857600000000000000000000) by (nonlinear_arith)
        requires
            1 <= miss <= 104857600000000000000000000,
            0 <= c <= 18,
    ;
}

/// The numerator of a round's expected damage is at most 150 billion
/// fortieth-points per unit of its denominator's power of twenty: the
/// damage total contributes at most the per-attack bound per attack, and
/// the once-per-round terms carry probability masses of at most one.
pub proof fn lemma_turn_num_bound(t: Turn, ac: int)
    requires
        t.spec_len() <= 20,
    ensures
        -150000000000 * pow20(t.spec_len()) <= t.spec_num(ac) <= 150000000000 * pow20(
            t.spec_len(),
        ),
{
    let s = t.spec_attacks();
    let n = s.len();
    lemma_chain_bounds(s, ac);
    lemma_pow20_pos(n);
    let miss = spec_miss_num(s, ac);
    let fc = spec_first_crit_num(s, ac);
    let h = t.once_on_hit.spec_hit();
    let dm = t.once_on_hit.dmg as int;
    assert((pow20(n) - miss) * h <= 6442450944 * pow20(n) && (pow20(n) - miss) * h
        >= -6442450944 * pow20(n)) by (nonlinear_arith)
        requires
            0 <= pow20(n) - miss <= pow20(n),
            -6442450944 <= h <= 6442450944,
    ;
    assert(fc * dm <= 2147483648 * pow20(n) && fc * dm >= -2147483648 * pow20(n))
        by (nonlinear_arith)
        requires
            0 <= fc <= pow20(n),
            -2147483648 <= dm <= 2147483648,
    ;
    if n == 0 {
    } else {
        let p1 = pow20((n - 1) as nat);
        let tot = spec_total40(s, ac);
        lemma_pow20_pos((n - 1) as nat);
        assert(pow20(n) == 20 * p1);
        assert(tot * p1 <= 140000000000 * (20 * p1) && tot * p1 >= -140000000000 * (20 * p1))
            by (nonlinear_arith)
            requires
                -2800000000000 <= tot <= 2800000000000,
                p1 >= 1,
        ;
    }
}

/// Sum over a sequence of identical attacks: the damage total is the
/// count times the one attack's expected damage.
proof fn lemma_total40_constant(s: Seq<Attack>, a: Attack, ac: int)
    requires
        forall|k: int| 0 <= k < s.len() ==> s[k] == a,
    ensures
        spec_total40(s, ac) == s.len() * spec_dmg40(a, ac),
    decreases s.len(),
{
    if s.len() > 0 {
        lemma_total40_constant(s.drop_last(), a, ac);
        assert(spec_total40(s, ac) == (s.len() - 1) * spec_dmg40(a, ac) + spec_dmg40(a, ac));
        assert((s.len() - 1) * spec_dmg40(a, ac) + spec_dmg40(a, ac) == s.len() * spec_dmg40(
            a,
            ac,
        )) by (nonlinear_arith);
    }
}

/// A round of identical attacks with no once-per-round damage deals the
/// number of attacks times the single attack's expected damage: the
/// round's value `num / den` equals `len * dmg40 / 40`.
pub proof fn lemma_turn_linear(t: Turn, a: Attack, ac: int)
    requires
        forall|k: int| 0 <= k < t.spec_attacks().len() ==> t.spec_attacks()[k] == a,
        t.once_on_hit == (Damage { dmg: 0i32, fixed: 0i32 }),
    ensures
        t.spec_num(ac) * 40 == t.spec_len() * spec_dmg40(a, ac) * t.spec_den(),
{
    let s = t.spec_attacks();
    let n = s.len();
    lemma_total40_constant(s, a, ac);
    let h = t.once_on_hit.spec_hit();
    let dm = t.once_on_hit.dmg as int;
    assert((pow20(n) - spec_miss_num(s, ac)) * h == 0 && spec_first_crit_num(s, ac) * dm == 0)
        by (nonlinear_arith)
        requires
            h == 0,
            dm == 0,
    ;
    if n == 0 {
        assert(t.spec_num(ac) == 0);
        assert(t.spec_len() * spec_dmg40(a, ac) * t.spec_den() == 0) by (nonlinear_arith)
            requires
                t.spec_len() == 0,
        ;
    } else {
        let d = spec_dmg40(a, ac);
        let p1 = pow20((n - 1) as nat);
        assert(t.spec_num(ac) == (n * d) * p1);
        assert(t.spec_den() == 2 * (20 * p1));
        assert((n * d) * p1 * 40 == n * d * (2 * (20 * p1))) by (nonlinear_arith);
    }
}

} // verus!
