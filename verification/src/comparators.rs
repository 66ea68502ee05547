use vstd::prelude::*;
use crate::investment::Investment;
use crate::loan::{Loan, LoanView};
use crate::rate::Rate;
use crate::rounding::round_half_away;

verus! {

/// The number of periods in a year for both sides of a home comparison:
/// payments and rents are monthly.
pub const PERIODICITY: u8 = 12;

/// Buying a home on a loan, set against renting and investing what is left.
///
/// Amounts are in whole units and rates are fractions.
pub struct HomeInvest {
    pub supply: u32,
    pub loan: u32,
    pub loan_rate: Rate,
    pub purchase_charges: Rate,
    pub annual_charges: Rate,
    pub annual_appreciation_rate: Rate,
    pub rent: u32,
    pub invest_rate: Rate,
    pub years: u8,
}

impl HomeInvest {
    /// The loan that finances the purchase: the borrowed amount over the
    /// years of the comparison, repaid every month. Its payment is the
    /// linear one without interest, else `compound_term_price`, the supplied
    /// value of the compound closed form in hundredths.
    pub open spec fn purchase_loan_spec(self, compound_term_price: int) -> LoanView {
        LoanView {
            years: self.years as int,
            period: PERIODICITY as int,
            interest_rate_year: self.loan_rate,
            capital: self.loan as int,
            term_price: if self.loan_rate.is_zero_spec() {
                round_half_away(100 * self.loan, self.years * PERIODICITY)
            } else {
                compound_term_price
            },
        }
    }

    /// The payment of the purchase loan, in hundredths.
    pub open spec fn loan_term_price_spec(self, compound_term_price: int) -> int {
        self.purchase_loan_spec(compound_term_price).term_price
    }

    /// What the renter adds to the investment every period: the whole units
    /// of the loan payment, less the rent. It is negative where the rent is
    /// the larger.
    pub open spec fn rent_addition(self, compound_term_price: int) -> int {
        self.loan_term_price_spec(compound_term_price) / 100 - self.rent
    }

    /// The price paid for the home, charges included.
    pub open spec fn total_paid_spec(self) -> int {
        self.supply + self.loan
    }

    /// Makes a comparison.
    pub fn new(
        supply: u32,
        loan: u32,
        loan_rate: Rate,
        purchase_charges: Rate,
        annual_charges: Rate,
        annual_appreciation_rate: Rate,
        rent: u32,
        invest_rate: Rate,
        years: u8,
    ) -> (home: HomeInvest)
        ensures
            home.supply == supply,
            home.loan == loan,
            home.loan_rate == loan_rate,
            home.purchase_charges == purchase_charges,
            home.annual_charges == annual_charges,
            home.annual_appreciation_rate == annual_appreciation_rate,
            home.rent == rent,
            home.invest_rate == invest_rate,
            home.years == years,
    {
        HomeInvest {
            supply,
            loan,
            loan_rate,
            purchase_charges,
            annual_charges,
            annual_appreciation_rate,
            rent,
            invest_rate,
            years,
        }
    }

    /// The loan that finances the purchase.
    pub fn purchase_loan(&self, compound_term_price: u64) -> (loan: Loan)
        requires
            self.years > 0,
        ensures
            loan@.wf(),
            loan@ == self.purchase_loan_spec(compound_term_price as int),
    {
        Loan::new(self.years, PERIODICITY, self.loan_rate, self.loan, compound_term_price)
    }

    /// The payment of the purchase loan, in hundredths.
    pub fn loan_term_price(&self, compound_term_price: u64) -> (price: u64)
        requires
            self.years > 0,
        ensures
            price == self.loan_term_price_spec(compound_term_price as int),
    {
        self.purchase_loan(compound_term_price).term_price()
    }

    /// The price paid for the home, charges included: the down payment and
    /// the borrowed amount.
    pub fn total_paid(&self) -> (price: u64)
        ensures
            price == self.total_paid_spec(),
    {
        self.supply as u64 + self.loan as u64
    }

    /// The investment of the one who rents: the down payment, growing
    /// monthly at the investment rate, and every month the difference between
    /// the loan payment and the rent.
    pub fn rent_investment(&self, compound_term_price: u64) -> (invest: Investment)
        requires
            self.years > 0,
        ensures
            invest.capital == self.supply,
            invest.periodicity == PERIODICITY,
            invest.yield_rate == self.invest_rate,
            invest.regular_addition == self.rent_addition(compound_term_price as int),
    {
        let price: u64 = self.loan_term_price(compound_term_price);
        let addition: i64 = (price / 100) as i64 - self.rent as i64;
        Investment::new(self.supply, PERIODICITY, self.invest_rate, addition)
    }

    /// The whole years that have passed after `period` periods.
    pub fn whole_years(period: u32) -> (years: u32)
        ensures
            years == period as int / PERIODICITY as int,
    {
        period / (PERIODICITY as u32)
    }
}

} // verus!
