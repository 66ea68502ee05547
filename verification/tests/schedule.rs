use homecalc::schedule::report_periods;

#[test]
fn report_periods_steps_between_the_ends() {
    assert_eq!(report_periods(1, 12, 48), vec![1, 12, 24, 36, 48]);
    assert_eq!(report_periods(0, 10, 35), vec![0, 10, 20, 30, 35]);
}

#[test]
fn report_periods_leaves_out_a_step_that_reaches_the_end() {
    assert_eq!(report_periods(0, 5, 10), vec![0, 5, 10]);
    assert_eq!(report_periods(0, 5, 11), vec![0, 5, 10, 11]);
}

#[test]
fn report_periods_with_a_step_past_the_end() {
    assert_eq!(report_periods(1, 300, 240), vec![1, 240]);
    assert_eq!(report_periods(0, 7, 7), vec![0, 7]);
    assert_eq!(report_periods(0, 1, 0), vec![0, 0]);
    assert_eq!(report_periods(0, 1, 1), vec![0, 1]);
}

#[test]
fn report_periods_near_the_largest_period() {
    assert_eq!(
        report_periods(0, 2_000_000_000, u32::MAX),
        vec![0, 2_000_000_000, 4_000_000_000, u32::MAX]
    );
    assert_eq!(report_periods(3, u32::MAX, u32::MAX), vec![3, u32::MAX]);
}
