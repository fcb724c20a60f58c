//! The yearly recurrence of an investment, the record of each year, and the
//! summary of a whole run.

use vstd::prelude::*;
use crate::decimal::Decimal;
use crate::decimal::SCALE;
use crate::decimal::lemma_round_div_sign;
use crate::decimal::mean;
use crate::decimal::narrowed;
use crate::decimal::rounded_quotient;
use crate::decimal::total_micros;
use crate::error::SimulationError;
use crate::error::TypeError;
use crate::recurrence::InvestmentView;
use crate::types::PositiveFloat;

verus! {

/// What a year's closing balance is: the opening balance plus the interest on it.
pub open spec fn closing_balance(initial_balance: Decimal, return_rate: Decimal) -> Decimal {
    initial_balance.spec_plus(initial_balance.spec_times(return_rate))
}

/// One simulated year, as contracts see it.
pub struct SnapshotView {
    pub year: usize,
    pub net_contribution: PositiveFloat,
    pub initial_balance: Decimal,
    pub return_rate: Decimal,
}

impl SnapshotView {
    /// The balance at the end of the year.
    pub open spec fn final_balance(self) -> Decimal {
        closing_balance(self.initial_balance, self.return_rate)
    }

    /// What the balance earns in the year.
    pub open spec fn interest(self) -> Decimal {
        self.initial_balance.spec_times(self.return_rate)
    }

    /// The balance before tax, which is the closing balance.
    pub open spec fn gross_profit(self) -> Decimal {
        self.initial_balance.spec_plus(self.interest())
    }

    /// The balance after a tax at `tax_rate` on the part of the gross profit
    /// that exceeds what was paid in.
    pub open spec fn net_profit(self, tax_rate: PositiveFloat) -> Decimal {
        let gross = self.gross_profit();
        let paid_in = self.net_contribution.0;
        if gross.spec_less_than(paid_in) {
            gross
        } else {
            gross.spec_minus(gross.spec_minus(paid_in).spec_times(tax_rate.0))
        }
    }

    /// The opening balance, the rate and the closing balance are all numbers.
    pub open spec fn is_sound(self) -> bool {
        &&& self.initial_balance is Finite
        &&& self.return_rate is Finite
        &&& self.final_balance() is Finite
    }
}

/// The state of an investment at one year: what was paid in so far, the balance
/// the year opened with, and the rate of return it earned.
#[derive(Debug, Clone, Copy)]
pub struct InvestmentSnapshot {
    year: usize,
    net_contribution: PositiveFloat,
    initial_balance: Decimal,
    return_rate: Decimal,
}

impl View for InvestmentSnapshot {
    type V = SnapshotView;

    closed spec fn view(&self) -> SnapshotView {
        SnapshotView {
            year: self.year,
            net_contribution: self.net_contribution,
            initial_balance: self.initial_balance,
            return_rate: self.return_rate,
        }
    }
}

impl InvestmentSnapshot {
    #[verifier::type_invariant]
    spec fn sound(self) -> bool {
        self@.is_sound()
    }

    /// Records a year. The year is refused with `NaNInvalid` where the opening
    /// balance, the rate or the closing balance that follows from them is no number.
    pub fn new(
        year: usize,
        net_contribution: PositiveFloat,
        initial_balance: Decimal,
        return_rate: Decimal,
    ) -> (r: Result<Self, TypeError>)
        ensures
            match r {
                Ok(snapshot) => snapshot@ == (SnapshotView {
                    year,
                    net_contribution,
                    initial_balance,
                    return_rate,
                }) && snapshot@.is_sound(),
                Err(e) => e == TypeError::NaNInvalid && !(SnapshotView {
                    year,
                    net_contribution,
                    initial_balance,
                    return_rate,
                }).is_sound(),
            },
    {
        if initial_balance.is_nan() || return_rate.is_nan() {
            return Err(TypeError::NaNInvalid);
        }
        if initial_balance.plus(initial_balance.times(return_rate)).is_nan() {
            return Err(TypeError::NaNInvalid);
        }
        Ok(InvestmentSnapshot { year, net_contribution, initial_balance, return_rate })
    }

    /// The year as it is reported, closing balance included.
    pub fn result(&self) -> (reported: InvestmentSnapshotResult)
        ensures
            reported@ == self@,
    {
        proof {
            use_type_invariant(self);
        }
        InvestmentSnapshotResult {
            year: self.year,
            net_contribution: self.net_contribution,
            initial_balance: self.initial_balance,
            return_rate: self.return_rate,
            final_balance: self.final_balance(),
        }
    }

    /// The balance at the end of the year, which is a number.
    pub fn final_balance(&self) -> (balance: Decimal)
        ensures
            balance == self@.final_balance(),
            balance is Finite,
    {
        proof {
            use_type_invariant(self);
        }
        self.initial_balance.plus(self.initial_balance.times(self.return_rate))
    }

    pub fn year(&self) -> (year: usize)
        ensures
            year == self@.year,
    {
        self.year
    }

    pub fn net_contribution(&self) -> (paid_in: PositiveFloat)
        ensures
            paid_in == self@.net_contribution,
    {
        self.net_contribution
    }

    pub fn initial_balance(&self) -> (balance: Decimal)
        ensures
            balance == self@.initial_balance,
            balance is Finite,
    {
        proof {
            use_type_invariant(self);
        }
        self.initial_balance
    }

    pub fn return_rate(&self) -> (rate: Decimal)
        ensures
            rate == self@.return_rate,
            rate is Finite,
    {
        proof {
            use_type_invariant(self);
        }
        self.return_rate
    }

    /// What the balance earned in the year: the opening balance times the rate.
    pub fn interest(&self) -> (earned: Decimal)
        ensures
            earned == self@.interest(),
    {
        self.initial_balance.times(self.return_rate)
    }

    /// The balance before tax: the opening balance plus the interest.
    pub fn gross_profit(&self) -> (gross: Decimal)
        ensures
            gross == self@.gross_profit(),
            gross is Finite,
    {
        self.final_balance()
    }

    /// The balance after tax. Tax is due on the part of the gross profit that
    /// exceeds what was paid in, so a loss is never taxed. The result is not
    /// raised to zero where it falls below, and it is `NaN` where a step of
    /// the computation is out of range. With a tax rate that is not below zero
    /// it never exceeds the gross profit.
    pub fn net_profit(&self, tax_rate: PositiveFloat) -> (net: Decimal)
        ensures
            net == self@.net_profit(tax_rate),
            tax_rate.is_valid() && net is Finite ==> net.micros() <= self@.gross_profit().micros(),
    {
        let gross = self.gross_profit();
        let paid_in = self.net_contribution.0;
        if gross.less_than(&paid_in) {
            gross
        } else {
            let taxable = gross.minus(paid_in);
            let tax = taxable.times(tax_rate.0);
            proof {
                if tax_rate.is_valid() && taxable is Finite {
                    lemma_round_div_sign(taxable.micros() * tax_rate.0.micros(), SCALE as int);
                    assert(taxable.micros() * tax_rate.0.micros() >= 0) by (nonlinear_arith)
                        requires
                            taxable.micros() >= 0,
                            tax_rate.0.micros() >= 0,
                    ;
                }
            }
            gross.minus(tax)
        }
    }
}

/// A year as it is reported: the snapshot together with its closing balance.
#[derive(Debug, Clone, Copy)]
pub struct InvestmentSnapshotResult {
    year: usize,
    net_contribution: PositiveFloat,
    initial_balance: Decimal,
    return_rate: Decimal,
    final_balance: Decimal,
}

impl View for InvestmentSnapshotResult {
    type V = SnapshotView;

    closed spec fn view(&self) -> SnapshotView {
        SnapshotView {
            year: self.year,
            net_contribution: self.net_contribution,
            initial_balance: self.initial_balance,
            return_rate: self.return_rate,
        }
    }
}

impl InvestmentSnapshotResult {
    #[verifier::type_invariant]
    spec fn sound(self) -> bool {
        &&& self@.is_sound()
        &&& self.final_balance == self@.final_balance()
    }

    pub fn year(&self) -> (year: usize)
        ensures
            year == self@.year,
    {
        self.year
    }

    pub fn net_contribution(&self) -> (paid_in: PositiveFloat)
        ensures
            paid_in == self@.net_contribution,
    {
        self.net_contribution
    }

    pub fn initial_balance(&self) -> (balance: Decimal)
        ensures
            balance == self@.initial_balance,
            balance is Finite,
    {
        proof {
            use_type_invariant(self);
        }
        self.initial_balance
    }

    pub fn return_rate(&self) -> (rate: Decimal)
        ensures
            rate == self@.return_rate,
            rate is Finite,
    {
        proof {
            use_type_invariant(self);
        }
        self.return_rate
    }

    pub fn final_balance(&self) -> (balance: Decimal)
        ensures
            balance == self@.final_balance(),
            balance is Finite,
    {
        proof {
            use_type_invariant(self);
        }
        self.final_balance
    }
}

/// The views of a run of reported years, in order.
pub open spec fn result_views(results: Seq<InvestmentSnapshotResult>) -> Seq<SnapshotView> {
    results.map_values(|r: InvestmentSnapshotResult| r@)
}

/// The rates of return of a run of years, in order.
pub open spec fn return_rates(years: Seq<SnapshotView>) -> Seq<Decimal> {
    years.map_values(|y: SnapshotView| y.return_rate)
}

/// The summary of a run, as contracts see it.
pub struct InvestmentResultView {
    pub investment_years: usize,
    pub net_contributions: PositiveFloat,
    pub final_balance: Decimal,
    pub average_return_rate: Decimal,
}

/// The summary of a run of years: how many there are, what the last of them
/// holds, and the mean of all their rates. No years, no summary.
pub open spec fn summary(years: Seq<SnapshotView>) -> Result<InvestmentResultView, SimulationError> {
    if years.len() == 0 {
        Err(SimulationError::InvalidInvestmentResults)
    } else {
        Ok(
            InvestmentResultView {
                investment_years: years.len() as usize,
                net_contributions: years.last().net_contribution,
                final_balance: years.last().final_balance(),
                average_return_rate: mean(return_rates(years)),
            },
        )
    }
}

/// The outcome of a summary as contracts see it: its view, or the error.
pub open spec fn summarized(r: Result<InvestmentResult, SimulationError>) -> Result<
    InvestmentResultView,
    SimulationError,
> {
    match r {
        Ok(result) => Ok(result@),
        Err(e) => Err(e),
    }
}

/// The summary of a whole run.
#[derive(Debug, Clone, Copy)]
pub struct InvestmentResult {
    investment_years: usize,
    net_contributions: PositiveFloat,
    final_balance: Decimal,
    average_return_rate: Decimal,
}

impl View for InvestmentResult {
    type V = InvestmentResultView;

    closed spec fn view(&self) -> InvestmentResultView {
        InvestmentResultView {
            investment_years: self.investment_years,
            net_contributions: self.net_contributions,
            final_balance: self.final_balance,
            average_return_rate: self.average_return_rate,
        }
    }
}

impl InvestmentResult {
    pub fn investment_years(&self) -> (years: usize)
        ensures
            years == self@.investment_years,
    {
        self.investment_years
    }

    pub fn net_contributions(&self) -> (paid_in: PositiveFloat)
        ensures
            paid_in == self@.net_contributions,
    {
        self.net_contributions
    }

    pub fn final_balance(&self) -> (balance: Decimal)
        ensures
            balance == self@.final_balance,
    {
        self.final_balance
    }

    pub fn average_return_rate(&self) -> (rate: Decimal)
        ensures
            rate == self@.average_return_rate,
    {
        self.average_return_rate
    }
}

/// Sums up a run: the number of years, the last year's contributions and
/// closing balance, and the mean rate of return. An empty run has no summary.
pub fn get_investment_result(investment_information: Vec<InvestmentSnapshotResult>) -> (r: Result<
    InvestmentResult,
    SimulationError,
>)
    ensures
        summarized(r) == summary(result_views(investment_information@)),
        r is Err <==> investment_information@.len() == 0,
        r matches Err(e) ==> e == SimulationError::InvalidInvestmentResults,
        r matches Ok(result) ==> result@.final_balance is Finite && result@.average_return_rate
            is Finite,
{
    let count = investment_information.len();
    if count == 0 {
        return Err(SimulationError::InvalidInvestmentResults);
    }
    let last_year_result = &investment_information[count - 1];
    let ghost rates = return_rates(result_views(investment_information@));
    let mut sum: i128 = 0;
    for i in 0..count
        invariant
            count == investment_information@.len(),
            rates == return_rates(result_views(investment_information@)),
            sum == total_micros(rates.take(i as int)),
            -(i * 0x8000_0000_0000_0000) <= sum <= i * 0x7fff_ffff_ffff_ffff,
            forall|k: int| 0 <= k < i ==> rates[k] is Finite,
    {
        let rate = investment_information[i].return_rate();
        proof {
            assert(rates.take(i + 1).drop_last() =~= rates.take(i as int));
            assert(rates.take(i + 1).last() == rate);
        }
        match rate {
            Decimal::Finite(m) => {
                sum = sum + m as i128;
            },
            Decimal::NaN => {},
        }
    }
    proof {
        assert(rates.take(count as int) =~= rates);
    }
    let average_return_rate = narrowed(rounded_quotient(sum, count as u128));
    proof {
        lemma_mean_in_range(sum as int, count as int);
    }
    let investment_result = InvestmentResult {
        investment_years: count,
        net_contributions: last_year_result.net_contribution(),
        final_balance: last_year_result.final_balance(),
        average_return_rate,
    };
    Ok(investment_result)
}

/// The mean of `count` values of the range of a decimal lies in that range.
proof fn lemma_mean_in_range(sum: int, count: int)
    requires
        count > 0,
        -(count * 0x8000_0000_0000_0000) <= sum <= count * 0x7fff_ffff_ffff_ffff,
    ensures
        -0x8000_0000_0000_0000 <= crate::decimal::round_div(sum, count) <= 0x7fff_ffff_ffff_ffff,
{
    let d = count;
    if sum >= 0 {
        let q = (2 * sum + d) / (2 * d);
        assert(q <= 0x7fff_ffff_ffff_ffff) by (nonlinear_arith)
            requires
                q == (2 * sum + d) / (2 * d),
                d > 0,
                0 <= sum <= d * 0x7fff_ffff_ffff_ffff,
        ;
        assert(q >= 0) by (nonlinear_arith)
            requires
                q == (2 * sum + d) / (2 * d),
                d > 0,
                0 <= sum,
        ;
    } else {
        let q = (2 * (-sum) + d) / (2 * d);
        assert(q <= 0x8000_0000_0000_0000) by (nonlinear_arith)
            requires
                q == (2 * (-sum) + d) / (2 * d),
                d > 0,
                0 <= -sum <= d * 0x8000_0000_0000_0000,
        ;
        assert(q >= 0) by (nonlinear_arith)
            requires
                q == (2 * (-sum) + d) / (2 * d),
                d > 0,
                0 <= -sum,
        ;
    }
}

/// The views of a run of snapshots, in order.
pub open spec fn snapshot_views(snapshots: Seq<InvestmentSnapshot>) -> Seq<SnapshotView> {
    snapshots.map_values(|s: InvestmentSnapshot| s@)
}

/// The outcome of a simulation as contracts see it: the views of the years, or the error.
pub open spec fn simulated(r: Result<Vec<InvestmentSnapshot>, SimulationError>) -> Result<
    Seq<SnapshotView>,
    SimulationError,
> {
    match r {
        Ok(snapshots) => Ok(snapshot_views(snapshots@)),
        Err(e) => Err(e),
    }
}

/// Each year as it is reported, in the order of the years.
pub fn results(snapshots: &Vec<InvestmentSnapshot>) -> (reported: Vec<InvestmentSnapshotResult>)
    ensures
        result_views(reported@) == snapshot_views(snapshots@),
        reported@.len() == snapshots@.len(),
        forall|i: int| 0 <= i < reported@.len() ==> (#[trigger] reported@[i])@ == snapshots@[i]@,
{
    let mut reported: Vec<InvestmentSnapshotResult> = Vec::new();
    for i in 0..snapshots.len()
        invariant
            reported@.len() == i,
            forall|k: int| 0 <= k < i ==> (#[trigger] reported@[k])@ == snapshots@[k]@,
    {
        reported.push(snapshots[i].result());
    }
    assert(result_views(reported@) =~= snapshot_views(snapshots@));
    reported
}

/// An initial deposit that grows over a number of years by one contribution
/// and one rate of return per year.
#[derive(Debug, Clone)]
pub struct Investment {
    initial_deposit: PositiveFloat,
    investment_years: usize,
    annual_net_contributions: Vec<PositiveFloat>,
    return_rates: Vec<Decimal>,
}

impl View for Investment {
    type V = InvestmentView;

    closed spec fn view(&self) -> InvestmentView {
        InvestmentView {
            initial_deposit: self.initial_deposit,
            investment_years: self.investment_years,
            annual_net_contributions: self.annual_net_contributions@,
            return_rates: self.return_rates@,
        }
    }
}

impl Investment {
    pub fn new(
        initial_deposit: PositiveFloat,
        investment_years: usize,
        annual_net_contributions: Vec<PositiveFloat>,
        return_rates: Vec<Decimal>,
    ) -> (investment: Self)
        ensures
            investment@ == (InvestmentView {
                initial_deposit,
                investment_years,
                annual_net_contributions: annual_net_contributions@,
                return_rates: return_rates@,
            }),
    {
        Investment { initial_deposit, investment_years, annual_net_contributions, return_rates }
    }

    /// Runs the years in order and records each. The first year that cannot be
    /// recorded ends the run with its error, and nothing of the run is returned.
    pub fn simulate(&self) -> (r: Result<Vec<InvestmentSnapshot>, SimulationError>)
        ensures
            simulated(r) == self@.simulate(),
            r matches Ok(snapshots) ==> snapshots@.len() == self@.investment_years && forall|i: int|
                0 <= i < snapshots@.len() ==> (#[trigger] snapshots@[i])@ == self@.snapshot(i),
    {
        let years = self.investment_years;
        if self.annual_net_contributions.len() != years || self.return_rates.len() != years {
            return Err(SimulationError::LengthMismatch);
        }
        let mut simulation_results: Vec<InvestmentSnapshot> = Vec::new();
        let mut paid_in: Decimal = self.initial_deposit.0;
        let mut balance: Decimal = self.initial_deposit.0;
        for i in 0..years
            invariant
                years == self.investment_years,
                self@.lengths_agree(),
                self@.first_error(i as int) is None,
                paid_in == self@.net_contribution(i - 1),
                balance == self@.final_balance(i - 1),
                simulation_results@.len() == i,
                forall|k: int| 0 <= k < i ==> (#[trigger] simulation_results@[k])@ == self@.snapshot(k),
        {
            let contribution = self.annual_net_contributions[i].0;
            let net = paid_in.plus(contribution);
            proof {
                if self@.year_error(i as int) is Some {
                    self@.lemma_first_error_is_kept(i + 1, years as int);
                }
            }
            if net.is_negative() {
                return Err(SimulationError::from(TypeError::PositiveFloatError(net)));
            }
            if net.is_nan() {
                return Err(SimulationError::from(TypeError::NaNInvalid));
            }
            let initial_balance = balance.plus(contribution);
            match InvestmentSnapshot::new(i, PositiveFloat(net), initial_balance, self.return_rates[i]) {
                Err(e) => {
                    return Err(SimulationError::from(e));
                },
                Ok(snapshot) => {
                    paid_in = net;
                    balance = snapshot.final_balance();
                    simulation_results.push(snapshot);
                },
            }
        }
        proof {
            assert(snapshot_views(simulation_results@) =~= Seq::new(
                years as nat,
                |i: int| self@.snapshot(i),
            ));
        }
        Ok(simulation_results)
    }
}

} // verus!
