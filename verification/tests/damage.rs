use dpr::Damage;

/// Half-points to points.
fn points(halves: i64) -> f64 {
    halves as f64 / 2.0
}

#[test]
fn test_dmg_hit() {
    let dmg = Damage { dmg: 2, fixed: 1 };

    assert_eq!(points(dmg.hit()), 2.0);
}

#[test]
fn test_dmg_crit() {
    let dmg = Damage { dmg: 2, fixed: 1 };

    assert_eq!(points(dmg.crit()), 3.0);
}

#[test]
fn test_dmg_add() {
    assert_eq!(
        Damage { dmg: 2, fixed: 1 }.plus(Damage { dmg: 2, fixed: 1 }),
        Damage { dmg: 4, fixed: 2 }
    );
}

#[test]
fn test_dmg_add_commutes() {
    let a = Damage { dmg: 3, fixed: -2 };
    let b = Damage { dmg: 14, fixed: 9 };

    assert_eq!(a.plus(b), b.plus(a));
}

#[test]
fn test_dmg_add_associates() {
    let a = Damage { dmg: 3, fixed: -2 };
    let b = Damage { dmg: 14, fixed: 9 };
    let c = Damage { dmg: 1, fixed: 100 };

    assert_eq!(a.plus(b).plus(c), a.plus(b.plus(c)));
}
