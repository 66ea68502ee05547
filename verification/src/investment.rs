use vstd::prelude::*;
use crate::rate::Rate;
use crate::schedule::{report_periods, report_periods_spec};

verus! {

/// A capital that earns a yield and receives the same addition every period.
///
/// The capital and the addition are in whole units. The addition may be
/// negative: money is then taken out every period.
pub struct Investment {
    pub capital: u32,
    pub periodicity: u8,
    pub yield_rate: Rate,
    pub regular_addition: i64,
}

impl Investment {
    /// The sum of the additions made over `n` periods.
    pub open spec fn additions_total_spec(self, n: int) -> int {
        self.regular_addition * n
    }

    /// Everything put in by the end of period `n`: the initial capital and
    /// the additions since.
    pub open spec fn total_invested_spec(self, n: int) -> int {
        self.capital + self.additions_total_spec(n)
    }

    /// Whether the capital after `n` periods is known without a real power:
    /// at the start, where nothing has grown yet, and at a yield of zero,
    /// where nothing ever grows.
    pub open spec fn grows_linearly(self, n: int) -> bool {
        n == 0 || self.yield_rate.is_zero_spec()
    }

    /// The capital after `n` periods where it is known exactly, and `None`
    /// where it takes the compound closed form.
    pub open spec fn capital_at_spec(self, n: int) -> Option<int> {
        if self.grows_linearly(n) {
            Some(self.total_invested_spec(n))
        } else {
            None
        }
    }

    /// Makes an investment.
    pub fn new(capital: u32, periodicity: u8, yield_rate: Rate, regular_addition: i64) -> (invest:
        Investment)
        ensures
            invest.capital == capital,
            invest.periodicity == periodicity,
            invest.yield_rate == yield_rate,
            invest.regular_addition == regular_addition,
    {
        Investment { capital, periodicity, yield_rate, regular_addition }
    }

    /// The sum of the additions made over `n_period` periods.
    pub fn additions_total(&self, n_period: u32) -> (total: i128)
        ensures
            total == self.additions_total_spec(n_period as int),
    {
        assert(-0x1_0000_0000_0000_0000_0000_0000 < self.regular_addition * n_period
            < 0x1_0000_0000_0000_0000_0000_0000) by (nonlinear_arith)
            requires
                -0x8000_0000_0000_0000 <= self.regular_addition <= 0x7fff_ffff_ffff_ffff,
                0 <= n_period <= 0xffff_ffff,
        ;
        (self.regular_addition as i128) * (n_period as i128)
    }

    /// Everything put in by the end of period `n_period`.
    pub fn total_invested(&self, n_period: u32) -> (total: i128)
        ensures
            total == self.total_invested_spec(n_period as int),
    {
        assert(-0x1_0000_0000_0000_0000_0000_0000 < self.regular_addition * n_period
            < 0x1_0000_0000_0000_0000_0000_0000) by (nonlinear_arith)
            requires
                -0x8000_0000_0000_0000 <= self.regular_addition <= 0x7fff_ffff_ffff_ffff,
                0 <= n_period <= 0xffff_ffff,
        ;
        (self.capital as i128) + self.additions_total(n_period)
    }

    /// The capital after `n_period` periods, in whole units, where it is
    /// known exactly: at the start and at a yield of zero. Elsewhere the
    /// answer is `None`: with `r` the yield of one period and `g` the growth
    /// `(1 + r)^n`, the value is then `capital * g` plus
    /// `regular_addition * (g - 1) / r`, which takes a real power.
    pub fn capital_at(&self, n_period: u32) -> (grown: Option<i128>)
        ensures
            match grown {
                Some(amount) => self.capital_at_spec(n_period as int) == Some(amount as int),
                None => self.capital_at_spec(n_period as int).is_none(),
            },
    {
        if n_period == 0 || self.yield_rate.is_zero() {
            Some(self.total_invested(n_period))
        } else {
            None
        }
    }

    /// The periods at which the growth table shows a row: the start, then
    /// every `every` periods below `to`, then `to`.
    pub fn table_periods(&self, every: u32, to: u32) -> (rows: Vec<u32>)
        requires
            every > 0,
        ensures
            rows@ == report_periods_spec(0, every, to),
    {
        report_periods(0, every, to)
    }
}

/// At the start an investment is worth exactly its initial capital,
/// whatever its yield and its additions.
pub proof fn lemma_capital_at_start(invest: Investment)
    ensures
        invest.capital_at_spec(0) == Some(invest.capital as int),
{
    assert(invest.regular_addition * 0 == 0);
}

/// With no additions and no yield, an investment keeps its initial capital
/// at every period.
pub proof fn lemma_idle_capital_is_constant(invest: Investment, n: int)
    requires
        invest.regular_addition == 0,
        invest.yield_rate.is_zero_spec(),
    ensures
        invest.capital_at_spec(n) == Some(invest.capital as int),
{
    assert(0 * n == 0);
}

/// At a yield of zero each period adds exactly one addition to the capital.
pub proof fn lemma_linear_growth_step(invest: Investment, n: int)
    requires
        invest.yield_rate.is_zero_spec(),
    ensures
        invest.capital_at_spec(n + 1).unwrap() == invest.capital_at_spec(n).unwrap()
            + invest.regular_addition,
{
    assert(invest.regular_addition * (n + 1) == invest.regular_addition * n
        + invest.regular_addition) by (nonlinear_arith);
}

} // verus!
