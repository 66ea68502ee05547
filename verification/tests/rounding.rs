use homecalc::rounding::div_round;

#[test]
fn div_round_exact_quotients() {
    assert_eq!(div_round(0, 7), 0);
    assert_eq!(div_round(84, 7), 12);
    assert_eq!(div_round(-84, 7), -12);
    assert_eq!(div_round(5, 1), 5);
}

#[test]
fn div_round_goes_to_the_nearest() {
    assert_eq!(div_round(7, 3), 2);
    assert_eq!(div_round(8, 3), 3);
    assert_eq!(div_round(-7, 3), -2);
    assert_eq!(div_round(-8, 3), -3);
    assert_eq!(div_round(100_000, 12), 8_333);
    assert_eq!(div_round(500_000, 12), 41_667);
}

#[test]
fn div_round_ties_go_away_from_zero() {
    assert_eq!(div_round(1, 2), 1);
    assert_eq!(div_round(-1, 2), -1);
    assert_eq!(div_round(5, 2), 3);
    assert_eq!(div_round(-5, 2), -3);
    assert_eq!(div_round(15, 10), 2);
    assert_eq!(div_round(25, 10), 3);
}

#[test]
fn div_round_at_the_ends_of_the_range() {
    assert_eq!(div_round(i128::MAX, 1), i128::MAX);
    assert_eq!(div_round(i128::MIN, 1), i128::MIN);
    assert_eq!(div_round(i128::MIN, 2), -(1_i128 << 126));
    assert_eq!(div_round(i128::MAX, 2), 1_i128 << 126);
    assert_eq!(div_round(i128::MAX, u32::MAX), 39_614_081_266_355_540_835_774_234_624);
}
