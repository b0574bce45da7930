use dpr::d4;
use dpr::Attack;
use dpr::Damage;
use dpr::Ratio;
use dpr::Turn;

/// The exact ratio as a float, for comparing against reference values.
fn val(r: &Ratio) -> f64 {
    r.num as f64 / r.den as f64
}

#[test]
fn test_turn_actions() {
    let atk = Attack {
        dmg: Damage { dmg: 40, fixed: 20 },
        ..Default::default()
    };

    let turn = Turn { action: vec![atk], ..Default::default() };

    assert_eq!(val(&turn.expected_damage(11)), val(&atk.expected_damage(11)));

    let turn = Turn { action: vec![atk; 2], ..Default::default() };

    assert_eq!(val(&turn.expected_damage(11)), 2.0 * val(&atk.expected_damage(11)));
}

#[test]
fn test_turn_bonus_actions() {
    let atk = Attack {
        dmg: Damage { dmg: 40, fixed: 20 },
        ..Default::default()
    };

    let turn = Turn { bonus_action: vec![atk], ..Default::default() };

    assert_eq!(val(&turn.expected_damage(11)), val(&atk.expected_damage(11)));

    let turn = Turn { bonus_action: vec![atk; 2], ..Default::default() };

    assert_eq!(val(&turn.expected_damage(11)), 2.0 * val(&atk.expected_damage(11)));
}

#[test]
fn test_turn_actions_and_bonus_actions() {
    let atk = Attack {
        dmg: Damage { dmg: 40, fixed: 20 },
        ..Default::default()
    };

    let turn = Turn {
        action: vec![atk; 2],
        bonus_action: vec![atk; 2],
        ..Default::default()
    };

    assert_eq!(val(&turn.expected_damage(11)), 4.0 * val(&atk.expected_damage(11)));
}

#[test]
fn test_turn_add_damage() {
    let dmg = Damage { dmg: 2, fixed: 1 };
    let dbl_dmg = Damage { dmg: 4, fixed: 2 };

    let atk = Attack { hit: 1, dmg: dmg, crit: dmg };

    let doublish_atk = Attack { hit: 1, dmg: dbl_dmg, crit: dmg };

    let turn = Turn {
        action: vec![atk; 2],
        bonus_action: vec![atk; 3],
        once_on_hit: dmg,
    };

    assert_eq!(
        turn.plus_damage(dmg),
        Turn {
            action: vec![doublish_atk; 2],
            bonus_action: vec![doublish_atk; 3],
            once_on_hit: dmg,
        }
    )
}

#[test]
fn test_turn_add_attack() {
    let dmg = Damage { dmg: 2, fixed: 1 };
    let dbl_dmg = Damage { dmg: 4, fixed: 2 };

    let atk = Attack { hit: 1, dmg: dmg, crit: dmg };

    let dbl_atk = Attack { hit: 2, dmg: dbl_dmg, crit: dbl_dmg };

    let turn = Turn {
        action: vec![atk; 2],
        bonus_action: vec![atk; 3],
        once_on_hit: dmg,
    };

    assert_eq!(
        turn.plus_attack(atk),
        Turn {
            action: vec![dbl_atk; 2],
            bonus_action: vec![dbl_atk; 3],
            once_on_hit: dmg,
        }
    )
}

#[test]
fn test_turn_once_on_hit_fixed_one_attack() {
    let turn = Turn {
        action: vec![Attack { hit: 20, ..Default::default() }],
        once_on_hit: Damage { dmg: 0, fixed: 20 },
        ..Default::default()
    };

    assert_eq!(val(&turn.expected_damage(0)), 19.0);
}

#[test]
fn test_turn_once_on_hit_fixed_multiple_attacks() {
    let turn = Turn {
        action: vec![Attack { hit: 0, ..Default::default() }; 2],
        once_on_hit: Damage { dmg: 0, fixed: 20 },
        ..Default::default()
    };

    assert_eq!(
        format!("{:.4}", val(&turn.expected_damage(20))),
        format!("{:.4}", 1.95)
    );

    let turn = Turn {
        action: vec![Attack { hit: 0, ..Default::default() }; 4],
        once_on_hit: Damage { dmg: 0, fixed: 20 },
        ..Default::default()
    };

    assert_eq!(
        format!("{:.2}", val(&turn.expected_damage(20))),
        format!("{:.2}", 3.71)
    );
}

#[test]
fn test_turn_once_on_hit_crit_one_attack() {
    let turn = Turn {
        action: vec![Attack { hit: 20, ..Default::default() }],
        once_on_hit: Damage { dmg: 40, fixed: 0 },
        ..Default::default()
    };

    assert_eq!(val(&turn.expected_damage(0)), 20.0);
}

#[test]
fn test_turn_once_on_hit_crit_multiple_attacks() {
    let turn = Turn {
        action: vec![Attack { hit: 0, ..Default::default() }; 2],
        once_on_hit: Damage { dmg: 40, fixed: 0 },
        ..Default::default()
    };

    assert_eq!(
        format!("{:.4}", val(&turn.expected_damage(20))),
        format!("{:.4}", 2.0 * 1.95)
    );

    let turn = Turn {
        action: vec![Attack { hit: 0, ..Default::default() }; 4],
        once_on_hit: Damage { dmg: 40, fixed: 0 },
        ..Default::default()
    };

    assert_eq!(
        format!("{:.2}", val(&turn.expected_damage(20))),
        format!("{:.2}", 2.0 * 3.71)
    );
}

#[test]
fn test_turn_foe() {
    let turn = Turn {
        action: vec![Attack { ..Default::default() }],
        ..Default::default()
    }
    .foe();

    assert_eq!(
        format!("{:.4}", val(&turn.expected_damage(20))),
        format!("{:.4}", (1.0 / 20.0) * 2.0 * (d4 as f64 / 2.0))
    )
}

#[test]
fn test_turn_foe_keeps_attacks() {
    let atk = Attack {
        hit: 3,
        dmg: Damage { dmg: 7, fixed: 2 },
        crit: Damage { dmg: 5, fixed: 0 },
    };
    let turn = Turn {
        action: vec![atk; 2],
        bonus_action: vec![atk],
        once_on_hit: Damage { dmg: 11, fixed: 4 },
    };

    let buffed = turn.foe();

    assert_eq!(buffed.action, turn.action);
    assert_eq!(buffed.bonus_action, turn.bonus_action);
    assert_eq!(buffed.once_on_hit.dmg, turn.once_on_hit.dmg + d4);
    assert_eq!(buffed.once_on_hit.fixed, turn.once_on_hit.fixed);
}

#[test]
fn test_turn_empty() {
    let turn = Turn {
        once_on_hit: Damage { dmg: 40, fixed: 20 },
        ..Default::default()
    };

    // nothing attacks, so nothing can trigger the once-per-round damage
    assert_eq!(val(&turn.expected_damage(10)), 0.0);
}

#[test]
fn test_turn_clone_eq() {
    let turn = Turn {
        action: vec![Attack { hit: 1, ..Default::default() }],
        bonus_action: vec![Attack { hit: 2, ..Default::default() }],
        once_on_hit: Damage { dmg: 11, fixed: 4 },
    };

    assert_eq!(turn.clone(), turn);
}
