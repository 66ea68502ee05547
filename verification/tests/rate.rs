use homecalc::rate::Rate;

#[test]
fn rate_keeps_its_bit_pattern() {
    let rate = Rate::from_bits(0.029_f32.to_bits());
    assert_eq!(rate.to_bits(), 0.029_f32.to_bits());
    assert_eq!(f32::from_bits(rate.to_bits()), 0.029_f32);
}

#[test]
fn rate_zero_of_either_sign_is_zero() {
    assert!(Rate::zero().is_zero());
    assert!(Rate::from_bits(0.0_f32.to_bits()).is_zero());
    assert!(Rate::from_bits((-0.0_f32).to_bits()).is_zero());
}

#[test]
fn rate_other_than_zero_is_not_zero() {
    assert!(!Rate::from_bits(0.029_f32.to_bits()).is_zero());
    assert!(!Rate::from_bits((-0.01_f32).to_bits()).is_zero());
    assert!(!Rate::from_bits(1).is_zero());
    assert!(!Rate::from_bits(f32::MIN_POSITIVE.to_bits()).is_zero());
}
