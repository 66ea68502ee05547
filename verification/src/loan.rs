use vstd::prelude::*;
use crate::rate::Rate;
use crate::rounding::{
    div_round, lemma_round_bounded, lemma_round_error, lemma_round_exact, lemma_round_monotonic,
    round_half_away,
};
use crate::schedule::{report_periods, report_periods_spec};

verus! {

/// What a loan is, as mathematics: the terms it was granted on and its fixed
/// periodic payment. The capital is in whole units, the payment in
/// hundredths.
pub struct LoanView {
    pub years: int,
    pub period: int,
    pub interest_rate_year: Rate,
    pub capital: int,
    pub term_price: int,
}

impl LoanView {
    /// The number of payments over the life of the loan.
    pub open spec fn periods(self) -> int {
        self.years * self.period
    }

    /// The payment of an interest-free loan, in hundredths: the capital spread
    /// evenly over the periods.
    pub open spec fn linear_term_price(self) -> int {
        round_half_away(100 * self.capital, self.periods())
    }

    /// The capital, in hundredths, that an interest-free loan has repaid after
    /// `n` periods: the share `n / periods` of it.
    pub open spec fn linear_capital_at(self, n: int) -> int {
        round_half_away(100 * self.capital * n, self.periods())
    }

    /// A loan runs over at least one period, and the payment of an
    /// interest-free loan is its capital spread evenly.
    pub open spec fn wf(self) -> bool {
        &&& 0 < self.years <= u8::MAX
        &&& 0 < self.period <= u8::MAX
        &&& 0 <= self.capital <= u32::MAX
        &&& 0 <= self.term_price <= u64::MAX
        &&& self.interest_rate_year.is_zero_spec() ==> self.term_price == self.linear_term_price()
    }

    /// The capital repaid after `n` periods, in hundredths.
    ///
    /// Without interest it is the linear share. With interest it is nothing
    /// at the start, the whole capital at the end, and in between the value
    /// `compound` of the compound closed form, which the caller supplies.
    pub open spec fn capital_at(self, n: int, compound: int) -> int {
        if self.interest_rate_year.is_zero_spec() {
            self.linear_capital_at(n)
        } else if n == 0 {
            0
        } else if n == self.periods() {
            100 * self.capital
        } else {
            compound
        }
    }

    /// The total paid after `n` periods, in hundredths.
    pub open spec fn paid(self, n: int) -> int {
        self.term_price * n
    }

    /// The interest paid after `n` periods, in hundredths: what was paid and
    /// did not repay capital.
    pub open spec fn interest_at(self, n: int, compound: int) -> int {
        self.paid(n) - self.capital_at(n, compound)
    }

    /// The capital still owed after `n` periods, in hundredths.
    pub open spec fn balance_at(self, n: int, compound: int) -> int {
        100 * self.capital - self.capital_at(n, compound)
    }
}

/// At every period, what has been paid is exactly the capital repaid plus the
/// interest paid.
pub proof fn lemma_paid_is_capital_plus_interest(loan: LoanView, n: int, compound: int)
    ensures
        loan.paid(n) == loan.capital_at(n, compound) + loan.interest_at(n, compound),
{
}

/// A loan has repaid nothing at the start and exactly its capital after its
/// last period, whatever its rate.
pub proof fn lemma_capital_at_ends(loan: LoanView, compound: int)
    requires
        loan.wf(),
    ensures
        loan.capital_at(0, compound) == 0,
        loan.capital_at(loan.periods(), compound) == 100 * loan.capital,
{
    let total = loan.periods();
    assert(total > 0) by (nonlinear_arith)
        requires
            total == loan.years * loan.period,
            loan.years > 0,
            loan.period > 0,
    ;
    assert(100 * loan.capital * 0 == 0);
    assert(100 * loan.capital * total == (100 * loan.capital) * total);
    lemma_round_exact(0, total);
    assert(0 * total == 0);
    lemma_round_exact(100 * loan.capital, total);
}

/// The capital repaid by an interest-free loan never falls from one period
/// to a later one.
pub proof fn lemma_linear_capital_monotonic(loan: LoanView, n: int, m: int, compound: int)
    requires
        loan.wf(),
        loan.interest_rate_year.is_zero_spec(),
        n <= m,
    ensures
        loan.capital_at(n, compound) <= loan.capital_at(m, compound),
{
    let total = loan.periods();
    assert(total > 0) by (nonlinear_arith)
        requires
            total == loan.years * loan.period,
            loan.years > 0,
            loan.period > 0,
    ;
    assert(100 * loan.capital * n <= 100 * loan.capital * m) by (nonlinear_arith)
        requires
            n <= m,
            loan.capital >= 0,
    ;
    lemma_round_monotonic(100 * loan.capital * n, 100 * loan.capital * m, total);
}

/// Within the life of an interest-free loan, the capital repaid lies between
/// nothing and the whole capital.
pub proof fn lemma_linear_capital_in_range(loan: LoanView, n: int, compound: int)
    requires
        loan.wf(),
        loan.interest_rate_year.is_zero_spec(),
        0 <= n <= loan.periods(),
    ensures
        0 <= loan.capital_at(n, compound) <= 100 * loan.capital,
{
    lemma_capital_at_ends(loan, compound);
    lemma_linear_capital_monotonic(loan, 0, n, compound);
    lemma_linear_capital_monotonic(loan, n, loan.periods(), compound);
}

/// Within the life of a loan the capital repaid never falls, whatever the
/// rate, as long as the values supplied for the compound closed form do not
/// fall either and stay between nothing and the capital.
pub proof fn lemma_capital_monotonic_within_life(
    loan: LoanView,
    n: int,
    m: int,
    compound_n: int,
    compound_m: int,
)
    requires
        loan.wf(),
        0 <= n <= m <= loan.periods(),
        0 <= compound_n <= compound_m <= 100 * loan.capital,
    ensures
        0 <= loan.capital_at(n, compound_n) <= loan.capital_at(m, compound_m) <= 100
            * loan.capital,
{
    if loan.interest_rate_year.is_zero_spec() {
        lemma_linear_capital_in_range(loan, n, compound_n);
        lemma_linear_capital_in_range(loan, m, compound_m);
        lemma_linear_capital_monotonic(loan, n, m, compound_n);
    }
}

/// Over its whole life an interest-free loan costs its capital, give or take
/// the rounding of its payment: at most half a hundredth for each period.
pub proof fn lemma_interest_free_total_interest(loan: LoanView, compound: int)
    requires
        loan.wf(),
        loan.interest_rate_year.is_zero_spec(),
    ensures
        -loan.periods() <= 2 * loan.interest_at(loan.periods(), compound) <= loan.periods(),
{
    lemma_capital_at_ends(loan, compound);
    let total = loan.periods();
    assert(total > 0) by (nonlinear_arith)
        requires
            total == loan.years * loan.period,
            loan.years > 0,
            loan.period > 0,
    ;
    lemma_round_error(100 * loan.capital, total);
}

/// The total paid grows by one payment with each period.
pub proof fn lemma_paid_is_linear(loan: LoanView, n: int)
    ensures
        loan.paid(0) == 0,
        loan.paid(n + 1) == loan.paid(n) + loan.term_price,
{
    assert(loan.term_price * (n + 1) == loan.term_price * n + loan.term_price)
        by (nonlinear_arith);
}

/// A loan repaid by a fixed payment at regular periods.
///
/// The payment is fixed when the loan is made and never computed again.
pub struct Loan {
    years: u8,
    period: u8,
    interest_rate_year: Rate,
    capital: u32,
    term_price: u64,
}

impl View for Loan {
    type V = LoanView;

    closed spec fn view(&self) -> LoanView {
        LoanView {
            years: self.years as int,
            period: self.period as int,
            interest_rate_year: self.interest_rate_year,
            capital: self.capital as int,
            term_price: self.term_price as int,
        }
    }
}

impl Loan {
    #[verifier::type_invariant]
    spec fn well_formed(self) -> bool {
        self@.wf()
    }

    /// Makes a loan over `years` years of `period` payments each.
    ///
    /// The payment of an interest-free loan is the capital spread evenly over
    /// the periods, rounded to the hundredth. For any other rate it is
    /// `compound_term_price`, which the caller supplies: with `i` the rate of
    /// one period and `N` the number of periods, the value of
    /// `capital * i / (1 - (1 + i)^(-N))`, rounded to the hundredth and
    /// counted in hundredths. That form takes a real power and is undefined
    /// at a rate of zero, where the linear payment is its limit.
    pub fn new(
        years: u8,
        period: u8,
        interest_rate_year: Rate,
        capital: u32,
        compound_term_price: u64,
    ) -> (loan: Loan)
        requires
            years > 0,
            period > 0,
        ensures
            loan@.wf(),
            loan@.years == years,
            loan@.period == period,
            loan@.interest_rate_year == interest_rate_year,
            loan@.capital == capital,
            loan@.term_price == if interest_rate_year.is_zero_spec() {
                loan@.linear_term_price()
            } else {
                compound_term_price as int
            },
    {
        let term_price: u64 = if interest_rate_year.is_zero() {
            assert(0 < years * period <= 255 * 255) by (nonlinear_arith)
                requires
                    0 < years <= 255,
                    0 < period <= 255,
            ;
            let total: u32 = years as u32 * period as u32;
            let owed: i128 = 100 * (capital as i128);
            proof {
                lemma_round_bounded(owed as int, total as int);
            }
            div_round(owed, total) as u64
        } else {
            compound_term_price
        };
        Loan { years, period, interest_rate_year, capital, term_price }
    }

    /// The number of years the loan runs.
    pub fn years(&self) -> (years: u8)
        ensures
            years == self@.years,
    {
        self.years
    }

    /// The number of payments in a year.
    pub fn period(&self) -> (period: u8)
        ensures
            period == self@.period,
    {
        self.period
    }

    /// The annual rate.
    pub fn interest_rate_year(&self) -> (rate: Rate)
        ensures
            rate == self@.interest_rate_year,
    {
        self.interest_rate_year
    }

    /// The capital lent, in whole units.
    pub fn capital(&self) -> (capital: u32)
        ensures
            capital == self@.capital,
    {
        self.capital
    }

    /// The number of payments over the life of the loan.
    pub fn periods(&self) -> (total: u32)
        ensures
            total == self@.periods(),
            total > 0,
            self@.wf(),
    {
        proof {
            use_type_invariant(self);
        }
        assert(0 < self.years * self.period <= 255 * 255) by (nonlinear_arith)
            requires
                0 < self.years <= 255,
                0 < self.period <= 255,
        ;
        self.years as u32 * self.period as u32
    }

    /// The fixed payment, in hundredths.
    pub fn term_price(&self) -> (price: u64)
        ensures
            price == self@.term_price,
    {
        self.term_price
    }

    /// The capital repaid after `n_period` periods, in hundredths.
    ///
    /// `compound` is supplied by the caller: with `i` the rate of one period
    /// and `N` the number of periods, the value of
    /// `capital * ((1 + i)^n - 1) / ((1 + i)^N - 1)`, rounded to the hundredth
    /// and counted in hundredths. It is used only where the exact value is
    /// not known without it: for a loan with interest, at any period but the
    /// start and the last.
    pub fn capital_at(&self, n_period: i32, compound: i64) -> (repaid: i128)
        ensures
            repaid == self@.capital_at(n_period as int, compound as int),
    {
        let total: u32 = self.periods();
        if self.interest_rate_year.is_zero() {
            let owed: i128 = 100 * (self.capital as i128);
            assert(-0x40_0000_0000_0000_0000_0000 < owed * n_period
                < 0x40_0000_0000_0000_0000_0000) by (nonlinear_arith)
                requires
                    0 <= owed <= 100 * 0xffff_ffff,
                    -0x8000_0000 <= n_period <= 0x7fff_ffff,
            ;
            div_round(owed * (n_period as i128), total)
        } else if n_period == 0 {
            0
        } else if n_period as i64 == total as i64 {
            100 * (self.capital as i128)
        } else {
            compound as i128
        }
    }

    /// The total paid after `n_period` periods, in hundredths.
    pub fn paid(&self, n_period: i32) -> (paid: i128)
        ensures
            paid == self@.paid(n_period as int),
    {
        assert(-0x1_0000_0000_0000_0000_0000_0000 < self.term_price * n_period
            < 0x1_0000_0000_0000_0000_0000_0000) by (nonlinear_arith)
            requires
                0 <= self.term_price <= 0xffff_ffff_ffff_ffff,
                -0x8000_0000 <= n_period <= 0x7fff_ffff,
        ;
        (self.term_price as i128) * (n_period as i128)
    }

    /// The interest paid after `n_period` periods, in hundredths: what was
    /// paid less the capital repaid, each already rounded to the hundredth.
    pub fn interest_at(&self, n_period: i32, compound: i64) -> (interest: i128)
        ensures
            interest == self@.interest_at(n_period as int, compound as int),
            self@.paid(n_period as int) == self@.capital_at(n_period as int, compound as int)
                + interest,
    {
        let paid: i128 = self.paid(n_period);
        let repaid: i128 = self.capital_at(n_period, compound);
        proof {
            use_type_invariant(self);
            self.lemma_amounts_fit(n_period, compound);
        }
        paid - repaid
    }

    /// The capital still owed after `n_period` periods, in hundredths.
    pub fn balance_at(&self, n_period: i32, compound: i64) -> (owed: i128)
        ensures
            owed == self@.balance_at(n_period as int, compound as int),
    {
        let repaid: i128 = self.capital_at(n_period, compound);
        proof {
            use_type_invariant(self);
            self.lemma_amounts_fit(n_period, compound);
        }
        100 * (self.capital as i128) - repaid
    }

    /// The periods at which the amortization table shows a row: the first
    /// period, then every `every` periods while the loan runs, then its last
    /// period.
    pub fn table_periods(&self, every: u32) -> (rows: Vec<u32>)
        requires
            every > 0,
        ensures
            rows@ == report_periods_spec(1, every, self@.periods() as u32),
    {
        let total: u32 = self.periods();
        report_periods(1, every, total)
    }

    /// Both amounts that a query subtracts stay far inside the machine range.
    proof fn lemma_amounts_fit(&self, n_period: i32, compound: i64)
        requires
            self@.wf(),
        ensures
            -0x1_0000_0000_0000_0000_0000_0000 < self@.paid(n_period as int)
                < 0x1_0000_0000_0000_0000_0000_0000,
            -0x1_0000_0000_0000_0000_0000_0000 < self@.capital_at(n_period as int, compound as int)
                < 0x1_0000_0000_0000_0000_0000_0000,
    {
        let view = self@;
        let n = n_period as int;
        assert(-0x1_0000_0000_0000_0000_0000_0000 < view.term_price * n
            < 0x1_0000_0000_0000_0000_0000_0000) by (nonlinear_arith)
            requires
                0 <= view.term_price <= 0xffff_ffff_ffff_ffff,
                -0x8000_0000 <= n <= 0x7fff_ffff,
        ;
        let total = view.periods();
        assert(total > 0) by (nonlinear_arith)
            requires
                total == view.years * view.period,
                view.years > 0,
                view.period > 0,
        ;
        let num = 100 * view.capital * n;
        assert(-0x40_0000_0000_0000_0000_0000 < num < 0x40_0000_0000_0000_0000_0000)
            by (nonlinear_arith)
            requires
                num == 100 * view.capital * n,
                0 <= view.capital <= 0xffff_ffff,
                -0x8000_0000 <= n <= 0x7fff_ffff,
        ;
        if num >= 0 {
            lemma_round_bounded(num, total);
        } else {
            lemma_round_bounded(-num, total);
        }
    }
}

} // verus!
