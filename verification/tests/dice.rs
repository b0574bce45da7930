use dpr::d10;
use dpr::d4;

#[test]
fn test_dice() {
    assert_eq!(d4 as f64 / 2.0, 2.5);
    assert_eq!(d10 as f64 / 2.0, 5.5);
}
