//! The recurrence that carries an investment from year to year, stated over
//! sequences, and what follows from it.

use vstd::prelude::*;
use crate::decimal::Decimal;
use crate::decimal::SCALE;
use crate::decimal::lemma_round_div_sign;
use crate::error::SimulationError;
use crate::error::TypeError;
use crate::investment::SnapshotView;
use crate::investment::closing_balance;
use crate::types::PositiveFloat;

verus! {

/// What is simulated, as contracts see it.
pub struct InvestmentView {
    pub initial_deposit: PositiveFloat,
    pub investment_years: usize,
    pub annual_net_contributions: Seq<PositiveFloat>,
    pub return_rates: Seq<Decimal>,
}

impl InvestmentView {
    /// Everything paid in through year `i`: the deposit and the contributions
    /// of the years `0..=i`. Before the first year it is the deposit alone.
    pub open spec fn net_contribution(self, i: int) -> Decimal
        decreases i + 1,
    {
        if i < 0 {
            self.initial_deposit.0
        } else {
            self.net_contribution(i - 1).spec_plus(self.annual_net_contributions[i].0)
        }
    }

    /// The balance that year `i` opens with: what the year before closed with
    /// (the deposit, for the first year) plus the year's contribution.
    pub open spec fn initial_balance(self, i: int) -> Decimal
        decreases i + 1, 0int,
    {
        if i < 0 {
            Decimal::NaN
        } else {
            self.final_balance(i - 1).spec_plus(self.annual_net_contributions[i].0)
        }
    }

    /// The balance that year `i` closes with. Before the first year it is the deposit.
    pub open spec fn final_balance(self, i: int) -> Decimal
        decreases i + 1, 1int,
    {
        if i < 0 {
            self.initial_deposit.0
        } else {
            closing_balance(self.initial_balance(i), self.return_rates[i])
        }
    }

    /// The record of year `i`.
    pub open spec fn snapshot(self, i: int) -> SnapshotView {
        SnapshotView {
            year: i as usize,
            net_contribution: PositiveFloat(self.net_contribution(i)),
            initial_balance: self.initial_balance(i),
            return_rate: self.return_rates[i],
        }
    }

    /// Why year `i` cannot be recorded, if it cannot: what was paid in has
    /// fallen below zero, or one of the year's figures is no number.
    pub open spec fn year_error(self, i: int) -> Option<TypeError> {
        let paid_in = self.net_contribution(i);
        if paid_in.spec_is_negative() {
            Some(TypeError::PositiveFloatError(paid_in))
        } else if paid_in is NaN || !self.snapshot(i).is_sound() {
            Some(TypeError::NaNInvalid)
        } else {
            None
        }
    }

    /// The error of the earliest year below `n` that cannot be recorded.
    pub open spec fn first_error(self, n: int) -> Option<TypeError>
        decreases n,
    {
        if n <= 0 {
            None
        } else if self.first_error(n - 1) is Some {
            self.first_error(n - 1)
        } else {
            self.year_error(n - 1)
        }
    }

    /// One contribution and one rate for each year.
    pub open spec fn lengths_agree(self) -> bool {
        &&& self.annual_net_contributions.len() == self.investment_years
        &&& self.return_rates.len() == self.investment_years
    }

    /// The outcome of the simulation: the records of all years in order, or
    /// the reason why there are none.
    pub open spec fn simulate(self) -> Result<Seq<SnapshotView>, SimulationError> {
        if !self.lengths_agree() {
            Err(SimulationError::LengthMismatch)
        } else {
            match self.first_error(self.investment_years as int) {
                Some(e) => Err(SimulationError::TypeError(e)),
                None => Ok(Seq::new(self.investment_years as nat, |i: int| self.snapshot(i))),
            }
        }
    }

    /// The deposit and every contribution are numbers that are not below zero.
    pub open spec fn payments_are_valid(self) -> bool {
        &&& self.initial_deposit.is_valid()
        &&& forall|i: int|
            0 <= i < self.annual_net_contributions.len() ==> (
            #[trigger] self.annual_net_contributions[i]).is_valid()
    }

    /// Every rate is a number that is not below zero.
    pub open spec fn rates_are_not_negative(self) -> bool {
        forall|i: int|
            0 <= i < self.return_rates.len() ==> (#[trigger] self.return_rates[i]) is Finite
                && self.return_rates[i].micros() >= 0
    }

    /// Once a year has failed, looking at more years changes nothing.
    pub proof fn lemma_first_error_is_kept(self, m: int, n: int)
        requires
            self.first_error(m) is Some,
            m <= n,
        ensures
            self.first_error(n) == self.first_error(m),
        decreases n - m,
    {
        if m < n {
            self.lemma_first_error_is_kept(m, n - 1);
        }
    }

    /// With valid payments, what was paid in never falls below zero: it is at
    /// least zero or, where the sum is out of range, no number.
    pub proof fn lemma_paid_in_is_not_negative(self, i: int)
        requires
            self.payments_are_valid(),
            -1 <= i < self.annual_net_contributions.len(),
        ensures
            !self.net_contribution(i).spec_is_negative(),
        decreases i + 1,
    {
        if i >= 0 {
            self.lemma_paid_in_is_not_negative(i - 1);
            assert(self.annual_net_contributions[i].is_valid());
        }
    }

    /// With valid payments no year is refused for a negative value.
    pub proof fn lemma_only_nan_fails(self, n: int)
        requires
            self.payments_are_valid(),
            n <= self.annual_net_contributions.len(),
        ensures
            self.first_error(n) is Some ==> self.first_error(n) == Some(TypeError::NaNInvalid),
        decreases n,
    {
        if n > 0 {
            self.lemma_only_nan_fails(n - 1);
            self.lemma_paid_in_is_not_negative(n - 1);
        }
    }

    /// A rate that is no number makes the whole simulation fail with
    /// `NaNInvalid`, whichever year it belongs to, when the payments are valid
    /// and there is one contribution and one rate for each year.
    pub proof fn lemma_nan_rate_fails(self, k: int)
        requires
            self.payments_are_valid(),
            self.lengths_agree(),
            0 <= k < self.investment_years,
            self.return_rates[k] is NaN,
        ensures
            self.simulate() == Err::<Seq<SnapshotView>, SimulationError>(
                SimulationError::TypeError(TypeError::NaNInvalid),
            ),
    {
        let years = self.investment_years as int;
        self.lemma_paid_in_is_not_negative(k);
        assert(self.year_error(k) is Some);
        assert(self.first_error(k + 1) is Some);
        self.lemma_first_error_is_kept(k + 1, years);
        self.lemma_only_nan_fails(years);
    }

    /// Where no year up to `i` fails, every figure of those years is a number.
    pub proof fn lemma_years_before_failure_are_sound(self, i: int, n: int)
        requires
            self.first_error(n) is None,
            0 <= i < n,
        ensures
            self.net_contribution(i) is Finite,
            self.net_contribution(i).micros() >= 0,
            self.snapshot(i).is_sound(),
        decreases n,
    {
        if i < n - 1 {
            self.lemma_years_before_failure_are_sound(i, n - 1);
        }
    }

    /// With nothing paid in after the deposit and a rate of zero in every
    /// year, every year closes with the deposit.
    pub proof fn lemma_idle_years_keep_the_deposit(self, i: int)
        requires
            self.initial_deposit.is_valid(),
            -1 <= i < self.annual_net_contributions.len(),
            i < self.return_rates.len(),
            forall|k: int|
                0 <= k <= i ==> #[trigger] self.annual_net_contributions[k] == PositiveFloat(
                    Decimal::Finite(0),
                ),
            forall|k: int| 0 <= k <= i ==> #[trigger] self.return_rates[k] == Decimal::Finite(0),
        ensures
            self.net_contribution(i) == self.initial_deposit.0,
            self.final_balance(i) == self.initial_deposit.0,
            i >= 0 ==> self.initial_balance(i) == self.initial_deposit.0,
            self.first_error(i + 1) is None,
        decreases i + 1,
    {
        if i >= 0 {
            self.lemma_idle_years_keep_the_deposit(i - 1);
            let deposit = self.initial_deposit.0.micros();
            assert(self.annual_net_contributions[i] == PositiveFloat(Decimal::Finite(0)));
            assert(self.return_rates[i] == Decimal::Finite(0));
            assert(deposit * 0 == 0);
            lemma_round_div_sign(0, SCALE as int);
        }
    }

    /// With nothing paid in after the deposit and a rate of zero in every
    /// year, the simulation succeeds and every year closes with the deposit.
    pub proof fn lemma_idle_investment(self)
        requires
            self.initial_deposit.is_valid(),
            self.lengths_agree(),
            forall|k: int|
                0 <= k < self.investment_years
                    ==> #[trigger] self.annual_net_contributions[k] == PositiveFloat(
                    Decimal::Finite(0),
                ),
            forall|k: int|
                0 <= k < self.investment_years ==> #[trigger] self.return_rates[k]
                    == Decimal::Finite(0),
        ensures
            self.simulate() is Ok,
            forall|i: int|
                0 <= i < self.investment_years ==> (#[trigger] self.simulate()->Ok_0[i]).final_balance()
                    == self.initial_deposit.0,
    {
        let years = self.investment_years as int;
        self.lemma_idle_years_keep_the_deposit(years - 1);
        assert forall|i: int| 0 <= i < years implies (#[trigger] self.simulate()->Ok_0[i]).final_balance()
            == self.initial_deposit.0 by {
            self.lemma_idle_years_keep_the_deposit(i);
        }
    }

    /// With valid payments and rates that are not below zero, a year that is
    /// recorded has paid in, and closes with, at least as much as the year before.
    pub proof fn lemma_growth_step(self, i: int, n: int)
        requires
            self.payments_are_valid(),
            self.rates_are_not_negative(),
            self.lengths_agree(),
            self.first_error(n) is None,
            0 <= i < n <= self.investment_years,
        ensures
            self.net_contribution(i - 1) is Finite,
            self.final_balance(i - 1) is Finite,
            self.net_contribution(i) is Finite,
            self.final_balance(i) is Finite,
            0 <= self.net_contribution(i - 1).micros() <= self.net_contribution(i).micros(),
            0 <= self.final_balance(i - 1).micros() <= self.final_balance(i).micros(),
        decreases i,
    {
        self.lemma_years_before_failure_are_sound(i, n);
        if i > 0 {
            self.lemma_growth_step(i - 1, n);
        }
        assert(self.annual_net_contributions[i].is_valid());
        assert(self.return_rates[i] is Finite && self.return_rates[i].micros() >= 0);
        let opening = self.initial_balance(i).micros();
        let rate = self.return_rates[i].micros();
        assert(opening * rate >= 0) by (nonlinear_arith)
            requires
                opening >= 0,
                rate >= 0,
        ;
        lemma_round_div_sign(opening * rate, SCALE as int);
    }

    /// With valid payments and rates that are not below zero, what was paid in
    /// and the closing balance never fall from one recorded year to a later one.
    pub proof fn lemma_growth(self, i: int, j: int)
        requires
            self.payments_are_valid(),
            self.rates_are_not_negative(),
            self.simulate() is Ok,
            0 <= i <= j < self.investment_years,
        ensures
            self.simulate()->Ok_0[i].net_contribution.is_valid(),
            self.simulate()->Ok_0[j].net_contribution.is_valid(),
            self.simulate()->Ok_0[i].final_balance() is Finite,
            self.simulate()->Ok_0[j].final_balance() is Finite,
            self.simulate()->Ok_0[i].net_contribution.0.micros()
                <= self.simulate()->Ok_0[j].net_contribution.0.micros(),
            self.simulate()->Ok_0[i].final_balance().micros()
                <= self.simulate()->Ok_0[j].final_balance().micros(),
        decreases j - i,
    {
        self.lemma_growth_step(j, self.investment_years as int);
        if i < j {
            self.lemma_growth(i, j - 1);
        }
    }
}

} // verus!
