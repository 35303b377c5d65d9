use navni::orthotope::{pmax, pmin};

#[test]
fn pmin_pmax() {
    assert_eq!(pmax(1.0, 2.0), 2.0);
    assert_eq!(pmax(f32::NAN, 2.0), 2.0);
    assert_eq!(pmax(1.0, f32::NAN), 1.0);
    assert!(pmax(f32::NAN, f32::NAN).is_nan());

    assert_eq!(pmin(1.0, 2.0), 1.0);
    assert_eq!(pmin(f32::NAN, 2.0), 2.0);
    assert_eq!(pmin(1.0, f32::NAN), 1.0);
    assert!(pmin(f32::NAN, f32::NAN).is_nan());
}

#[test]
fn pmin_pmax_on_integers() {
    assert_eq!(pmin(3, -4), -4);
    assert_eq!(pmax(3, -4), 3);
    assert_eq!(pmin(5, 5), 5);
    assert_eq!(pmax(5, 5), 5);
    assert_eq!(pmin("a", "b"), "a");
    assert_eq!(pmax("a", "b"), "b");
}
