use homecalc::investment::Investment;
use homecalc::rate::Rate;

/// Whether two numbers are within `epsilon` or within `ulps` representable
/// steps of each other.
fn approx_eq(left: f64, right: f64, epsilon: f64, ulps: i64) -> bool {
    if (left - right).abs() <= epsilon {
        return true;
    }
    if left.is_sign_positive() != right.is_sign_positive() {
        return false;
    }
    let steps = (left.to_bits() as i64).wrapping_sub(right.to_bits() as i64);
    steps.checked_abs().map_or(false, |distance| distance <= ulps)
}

/// The capital after `n_period` periods: the exact value where the library
/// knows it, else the compound closed form.
fn capital_at(invest: &Investment, n_period: u32) -> f64 {
    match invest.capital_at(n_period) {
        Some(amount) => amount as f64,
        None => {
            let rate = f32::from_bits(invest.yield_rate.to_bits()) / invest.periodicity as f32;
            let growth = (1_f64 + rate as f64).powf(n_period as f64);
            invest.capital as f64 * growth
                + invest.regular_addition as f64 * ((growth - 1_f64) / rate as f64)
        }
    }
}

fn invest_of(capital: u32, periodicity: u8, rate: f32, addition: i64) -> Investment {
    Investment::new(capital, periodicity, Rate::from_bits(rate.to_bits()), addition)
}

#[test]
fn investment_test_capital_at() {
    let expected = 43951.93_f64;
    let invest = invest_of(25000, 12, 0.04, 150);
    assert!(
        approx_eq(expected, capital_at(&invest, 72), 2.0 * f64::EPSILON, 200000000),
        "expected: {}, actual: {}",
        expected,
        capital_at(&invest, 72)
    );
}

#[test]
fn test_total_additions() {
    let invest = invest_of(25000, 12, 0.04, 234);
    assert_eq!(19656, invest.additions_total(84));
}

#[test]
fn investment_keeps_its_terms() {
    let invest = invest_of(25000, 12, 0.04, 234);
    assert_eq!(invest.capital, 25000);
    assert_eq!(invest.periodicity, 12);
    assert_eq!(invest.yield_rate.to_bits(), 0.04_f32.to_bits());
    assert_eq!(invest.regular_addition, 234);
}

#[test]
fn investment_starts_at_its_capital() {
    let invest = invest_of(25000, 12, 0.04, 150);
    assert_eq!(invest.capital_at(0), Some(25000));
    assert_eq!(capital_at(&invest, 0), 25000.0);
    let idle = invest_of(10_000, 1, 0.0, 0);
    assert_eq!(idle.capital_at(0), Some(10_000));
}

#[test]
fn investment_with_a_yield_takes_the_closed_form() {
    let invest = invest_of(25000, 12, 0.04, 150);
    assert_eq!(invest.capital_at(1), None);
    assert_eq!(invest.capital_at(72), None);
    assert_eq!(invest.capital_at(u32::MAX), None);
}

#[test]
fn investment_without_additions_compounds_its_capital() {
    let invest = invest_of(10_000, 1, 0.04, 0);
    let rate = 0.04_f32 as f64;
    assert_eq!(capital_at(&invest, 3), 10_000_f64 * (1_f64 + rate).powf(3_f64));
    let idle = invest_of(10_000, 1, 0.0, 0);
    assert_eq!(idle.capital_at(3), Some(10_000));
    assert_eq!(idle.capital_at(u32::MAX), Some(10_000));
}

#[test]
fn investment_without_yield_grows_by_its_additions() {
    let invest = invest_of(25000, 12, 0.0, 150);
    assert_eq!(invest.capital_at(72), Some(35800));
    assert_eq!(invest.capital_at(73), Some(35950));
    assert_eq!(capital_at(&invest, 72), 35800.0);
    let minus = Investment::new(25000, 12, Rate::from_bits((-0.0_f32).to_bits()), 150);
    assert_eq!(minus.capital_at(2), Some(25300));
}

#[test]
fn investment_with_a_negative_addition() {
    let invest = invest_of(1_000, 12, 0.0, -300);
    assert_eq!(invest.additions_total(2), -600);
    assert_eq!(invest.total_invested(2), 400);
    assert_eq!(invest.capital_at(5), Some(-500));
}

#[test]
fn investment_totals() {
    let invest = invest_of(25000, 12, 0.04, 234);
    assert_eq!(invest.additions_total(0), 0);
    assert_eq!(invest.total_invested(0), 25000);
    assert_eq!(invest.total_invested(84), 44656);
    let large = invest_of(u32::MAX, 12, 0.04, i64::MAX);
    assert_eq!(
        large.additions_total(u32::MAX),
        (i64::MAX as i128) * (u32::MAX as i128)
    );
    assert_eq!(
        large.total_invested(u32::MAX),
        (i64::MAX as i128) * (u32::MAX as i128) + u32::MAX as i128
    );
    let small = invest_of(0, 12, 0.04, i64::MIN);
    assert_eq!(
        small.additions_total(u32::MAX),
        (i64::MIN as i128) * (u32::MAX as i128)
    );
}

#[test]
fn investment_table_periods() {
    let invest = invest_of(25000, 12, 0.04, 234);
    assert_eq!(invest.table_periods(12, 40), vec![0, 12, 24, 36, 40]);
    assert_eq!(invest.table_periods(12, 36), vec![0, 12, 24, 36]);
    assert_eq!(invest.table_periods(50, 36), vec![0, 36]);
}
