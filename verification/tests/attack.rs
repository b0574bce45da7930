use dpr::d4;
use dpr::d6;
use dpr::Attack;
use dpr::Damage;
use dpr::Ratio;

/// The exact ratio as a float, for comparing against reference values.
fn val(r: &Ratio) -> f64 {
    r.num as f64 / r.den as f64
}

#[test]
fn test_attack_add() {
    let dmg = Damage { dmg: 2, fixed: 1 };
    let dbl_dmg = Damage { dmg: 4, fixed: 2 };

    let atk = Attack { hit: 1, dmg: dmg, crit: dmg };

    assert_eq!(atk.plus(atk), Attack { hit: 2, dmg: dbl_dmg, crit: dbl_dmg });
}

#[test]
fn test_attack_add_damage() {
    let dmg = Damage { dmg: 2, fixed: 1 };
    let dbl_dmg = Damage { dmg: 4, fixed: 2 };

    let atk = Attack { hit: 1, dmg: dmg, crit: dmg };

    assert_eq!(atk.plus_damage(dmg), Attack { hit: 1, dmg: dbl_dmg, crit: dmg });
}

#[test]
fn test_attack_sharpshooter() {
    let dmg = Damage { dmg: 2, fixed: 1 };
    let atk = Attack { hit: 10, dmg: dmg, crit: dmg };

    let sharp = Attack { hit: 5, dmg: Damage { dmg: 2, fixed: 11 }, crit: dmg };

    assert_eq!(atk.sharpshooter(), sharp);
}

#[test]
fn test_attack_fixed_dmg() {
    let atk = Attack {
        dmg: Damage { dmg: 0, fixed: 20 },
        ..Default::default()
    };

    assert_eq!(val(&atk.expected_damage(11)), 10.0);
    assert_eq!(val(&atk.expected_damage(20)), 1.0);
    assert_eq!(val(&atk.expected_damage(21)), 1.0);

    assert_eq!(val(&atk.expected_damage(2)), 19.0);
}

#[test]
fn test_attack_fumble() {
    let atk = Attack {
        dmg: Damage { dmg: 0, fixed: 20 },
        ..Default::default()
    };
    assert_eq!(val(&atk.expected_damage(1)), 19.0);
}

#[test]
fn test_attack_hit_bonus() {
    let atk = Attack {
        hit: 5,
        dmg: Damage { dmg: 0, fixed: 20 },
        ..Default::default()
    };

    assert_eq!(val(&atk.expected_damage(11)), 15.0);
    assert_eq!(val(&atk.expected_damage(21)), 5.0);
}

#[test]
fn test_attack_dmg_crit() {
    let atk = Attack {
        dmg: Damage { dmg: 40, fixed: 0 },
        ..Default::default()
    };

    assert_eq!(val(&atk.expected_damage(11)), 11.0);

    let atk = Attack {
        dmg: Damage { dmg: 40, fixed: 20 },
        ..Default::default()
    };

    assert_eq!(val(&atk.expected_damage(11)), 21.0);
}

#[test]
fn test_attack_crit_only_dmg() {
    let atk = Attack {
        crit: Damage { dmg: 20, fixed: 0 },
        ..Default::default()
    };

    assert_eq!(val(&atk.expected_damage(11)), 1.0);

    let atk = Attack {
        crit: Damage { dmg: 0, fixed: 20 },
        ..Default::default()
    };

    assert_eq!(val(&atk.expected_damage(11)), 1.0);
}

#[test]
fn test_dmg_dpr_calc() {
    let crossbow = Attack {
        hit: 12,
        dmg: Damage { dmg: d6, fixed: 6 },
        crit: Damage { dmg: d6, fixed: 0 },
    };

    assert_eq!(val(&crossbow.expected_damage(17)), 8.125);

    let rando = Attack {
        hit: 8,
        dmg: Damage { dmg: 2 * d6, fixed: 5 },
        crit: Damage { dmg: d4, fixed: 3 },
    };

    assert_eq!(val(&rando.expected_damage(16)), 8.55)
}

#[test]
fn test_attack_expected_damage_denominator() {
    let atk = Attack {
        dmg: Damage { dmg: 7, fixed: 3 },
        ..Default::default()
    };

    let r = atk.expected_damage(10);
    assert_eq!(r.den, 40);
    // ten hitting faces of thirteen half-points, plus one twentieth of
    // the critical twenty half-points
    assert_eq!(r.num, 10 * 13 + 20);
}
