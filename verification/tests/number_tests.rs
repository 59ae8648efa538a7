use jparse::JNumber;

#[test]
fn test_num_eq_scales() {
    assert!(JNumber::new(12, 0).num_eq(&JNumber::new(1200, 2)));
    assert!(JNumber::new(1200, 2).num_eq(&JNumber::new(12, 0)));
    assert!(!JNumber::new(12, 0).num_eq(&JNumber::new(120, 2)));
}

#[test]
fn test_num_eq_signs() {
    assert!(JNumber::new(-55, 1).num_eq(&JNumber::new(-5500, 3)));
    assert!(!JNumber::new(55, 1).num_eq(&JNumber::new(-55, 1)));
}

#[test]
fn test_num_eq_zero() {
    assert!(JNumber::new(0, 5).num_eq(&JNumber::new(0, 0)));
    assert!(JNumber::new(0, 0).num_eq(&JNumber::new(0, 28)));
    assert!(!JNumber::new(0, 0).num_eq(&JNumber::new(1, 28)));
}
