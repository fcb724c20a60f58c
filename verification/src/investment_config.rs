//! What a simulation is asked to do, and the run from that request to its report.

use vstd::prelude::*;
use crate::decimal::Decimal;
use crate::decimal::SCALE;
use crate::decimal::decimal_of;
use crate::distributions::Distributions;
use crate::error::SimulationError;
use crate::error::TypeError;
use crate::investment::Investment;
use crate::investment::InvestmentResult;
use crate::investment::InvestmentResultView;
use crate::investment::InvestmentSnapshot;
use crate::investment::InvestmentSnapshotResult;
use crate::investment::SnapshotView;
use crate::investment::get_investment_result;
use crate::investment::result_views;
use crate::investment::results;
use crate::investment::simulated;
use crate::investment::summary;
use crate::recurrence::InvestmentView;
use crate::types::AnnualContribution;
use crate::types::Interest;
use crate::types::PositiveFloat;

verus! {

/// A request: the deposit in whole units, the number of years, and the
/// schedules of contributions and of rates of return.
#[derive(Debug)]
pub struct Configuration {
    pub deposit: usize,
    pub return_rates: Interest,
    pub years: usize,
    pub annual_contributions: AnnualContribution,
}

/// The years of a run and its summary, as contracts see them.
pub type ReportView = (Seq<SnapshotView>, InvestmentResultView);

/// The outcome of a report as contracts see it: the views of the years and of
/// the summary, or the error.
pub open spec fn reported(
    r: Result<(Vec<InvestmentSnapshotResult>, InvestmentResult), SimulationError>,
) -> Result<ReportView, SimulationError> {
    match r {
        Ok((years, overall)) => Ok((result_views(years@), overall@)),
        Err(e) => Err(e),
    }
}

impl Configuration {
    /// The deposit as a decimal; `NaN` where it is out of range.
    pub open spec fn deposit_decimal(self) -> Decimal {
        decimal_of(self.deposit as int * SCALE as int)
    }

    /// Why the request is refused before any year is simulated, if it is. It
    /// is checked in this order: the deposit must be in range, the
    /// contributions must expand, the rates must expand.
    pub open spec fn refusal(self, distributions: Map<Seq<char>, Seq<Decimal>>) -> Option<
        SimulationError,
    > {
        if !PositiveFloat(self.deposit_decimal()).is_valid() {
            Some(SimulationError::TypeError(TypeError::PositiveFloatError(self.deposit_decimal())))
        } else if self.annual_contributions.expansion(self.years) is Err {
            Some(self.annual_contributions.expansion(self.years)->Err_0)
        } else {
            self.return_rates.expansion_error(self.years, distributions)
        }
    }

    /// Whether `rates` may be the rates that the schedule of rates yields.
    /// Of a request that is refused nothing is asked.
    pub open spec fn may_yield(
        self,
        distributions: Map<Seq<char>, Seq<Decimal>>,
        rates: Seq<Decimal>,
    ) -> bool {
        self.refusal(distributions) is None ==> self.return_rates.expands_to(
            self.years,
            distributions,
            rates,
        )
    }

    /// The outcome of the simulation when the schedule of rates yields
    /// `rates`: the refusal of the request, or what the simulation of the
    /// expanded schedules gives.
    pub open spec fn outcome(
        self,
        distributions: Map<Seq<char>, Seq<Decimal>>,
        rates: Seq<Decimal>,
    ) -> Result<Seq<SnapshotView>, SimulationError> {
        match self.refusal(distributions) {
            Some(e) => Err(e),
            None => (InvestmentView {
                initial_deposit: PositiveFloat(self.deposit_decimal()),
                investment_years: self.years,
                annual_net_contributions: self.annual_contributions.expansion(self.years)->Ok_0,
                return_rates: rates,
            }).simulate(),
        }
    }

    /// The outcome of the report when the schedule of rates yields `rates`:
    /// the simulated years together with their summary.
    pub open spec fn report_outcome(
        self,
        distributions: Map<Seq<char>, Seq<Decimal>>,
        rates: Seq<Decimal>,
    ) -> Result<ReportView, SimulationError> {
        match self.outcome(distributions, rates) {
            Err(e) => Err(e),
            Ok(years) => match summary(years) {
                Err(e) => Err(e),
                Ok(overall) => Ok((years, overall)),
            },
        }
    }

    /// Expands the schedules and simulates the years.
    ///
    /// With a single rate or a list of rates the outcome is fixed by the
    /// request. With rates drawn from a named series it is the outcome for
    /// some rates that the series holds.
    pub fn simulate(&self, distributions: &Distributions) -> (r: Result<
        Vec<InvestmentSnapshot>,
        SimulationError,
    >)
        ensures
            exists|rates: Seq<Decimal>|
                self.may_yield(distributions@, rates) && simulated(r) == #[trigger] self.outcome(
                    distributions@,
                    rates,
                ),
    {
        let ghost no_rates = Seq::<Decimal>::empty();
        let deposit = match PositiveFloat::try_from(Decimal::from_units(self.deposit)) {
            Ok(deposit) => deposit,
            Err(e) => {
                let r = Err(SimulationError::from(e));
                assert(simulated(r) == self.outcome(distributions@, no_rates));
                return r;
            },
        };
        let contributions = match self.annual_contributions.to_annual_contributions(self.years) {
            Ok(contributions) => contributions,
            Err(e) => {
                let r = Err(e);
                assert(simulated(r) == self.outcome(distributions@, no_rates));
                return r;
            },
        };
        let rates = match self.return_rates.to_interest_rates(self.years, distributions) {
            Ok(rates) => rates,
            Err(e) => {
                let r = Err(e);
                assert(simulated(r) == self.outcome(distributions@, no_rates));
                return r;
            },
        };
        let ghost drawn = rates@;
        let investment = Investment::new(deposit, self.years, contributions, rates);
        let r = investment.simulate();
        assert(simulated(r) == self.outcome(distributions@, drawn));
        r
    }

    /// Simulates the years and sums them up: every year as it is reported, and
    /// the summary of the run. A request for no years has no report.
    pub fn report(&self, distributions: &Distributions) -> (r: Result<
        (Vec<InvestmentSnapshotResult>, InvestmentResult),
        SimulationError,
    >)
        ensures
            exists|rates: Seq<Decimal>|
                self.may_yield(distributions@, rates) && reported(r)
                    == #[trigger] self.report_outcome(distributions@, rates),
    {
        let simulation = self.simulate(distributions);
        let ghost rates = choose|rates: Seq<Decimal>|
            self.may_yield(distributions@, rates) && simulated(simulation) == #[trigger] self.outcome(
                distributions@,
                rates,
            );
        let investment_snapshots = match simulation {
            Ok(snapshots) => snapshots,
            Err(e) => {
                let r = Err(e);
                assert(reported(r) == self.report_outcome(distributions@, rates));
                return r;
            },
        };
        let investment_results = results(&investment_snapshots);
        let r = match get_investment_result(results(&investment_snapshots)) {
            Ok(overall) => Ok((investment_results, overall)),
            Err(e) => Err(e),
        };
        assert(reported(r) == self.report_outcome(distributions@, rates));
        r
    }
}

} // verus!
