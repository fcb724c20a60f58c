//! The number types of a simulation and the schedules that expand to one value per year.

use vstd::prelude::*;
use vstd::std_specs::cmp::PartialOrdSpecImpl;
use vstd::std_specs::convert::TryFromSpecImpl;
use std::cmp::Ordering;
use rand::Rng;
use rand::rngs::ThreadRng;
use crate::decimal::Decimal;
use crate::distributions::Distributions;
use crate::error::SimulationError;
use crate::error::TypeError;

verus! {

/// A decimal that is meant to be a number and not below zero.
///
/// The field is public, so a value can be written down directly; `is_valid`
/// says whether it keeps the promise, and `try_from` only hands out values that do.
#[derive(Copy, Clone, Debug, PartialEq, Eq, Structural)]
pub struct PositiveFloat(pub Decimal);

impl PositiveFloat {
    /// The wrapped value is a number and at least zero.
    pub open spec fn is_valid(self) -> bool {
        self.0 is Finite && self.0.micros() >= 0
    }

    /// `value` as an amount: it is taken where it is a number and at least
    /// zero, and refused where it is below zero or no number.
    pub open spec fn checked(value: Decimal) -> Result<PositiveFloat, TypeError> {
        if PositiveFloat(value).is_valid() {
            Ok(PositiveFloat(value))
        } else {
            Err(TypeError::PositiveFloatError(value))
        }
    }

    /// The sum of two amounts, or the reason why no amount holds it.
    pub open spec fn spec_plus(self, other: PositiveFloat) -> Result<PositiveFloat, TypeError> {
        PositiveFloat::checked(self.0.spec_plus(other.0))
    }

    /// Adds two amounts. The sum of two valid amounts is valid unless it is
    /// out of range; it is then refused like every value that is no number.
    pub fn plus(self, other: PositiveFloat) -> (sum: Result<PositiveFloat, TypeError>)
        ensures
            sum == self.spec_plus(other),
            self.is_valid() && other.is_valid() ==> (sum matches Ok(total) ==> total.is_valid()
                && total.0.micros() == self.0.micros() + other.0.micros()),
            self.is_valid() && other.is_valid() ==> (sum is Err <==> self.0.micros()
                + other.0.micros() > i64::MAX),
    {
        PositiveFloat::try_from(self.0.plus(other.0))
    }
}

impl PartialOrd for PositiveFloat {
    /// Orders two amounts by the numbers they wrap. There is no order where
    /// one of them wraps no number.
    fn partial_cmp(&self, other: &PositiveFloat) -> (order: Option<Ordering>) {
        match (self.0, other.0) {
            (Decimal::Finite(a), Decimal::Finite(b)) => {
                if a < b {
                    Some(Ordering::Less)
                } else if a == b {
                    Some(Ordering::Equal)
                } else {
                    Some(Ordering::Greater)
                }
            },
            _ => None,
        }
    }
}

impl PartialOrdSpecImpl for PositiveFloat {
    open spec fn obeys_partial_cmp_spec() -> bool {
        true
    }

    open spec fn partial_cmp_spec(&self, other: &PositiveFloat) -> Option<Ordering> {
        match (self.0, other.0) {
            (Decimal::Finite(a), Decimal::Finite(b)) => {
                if a < b {
                    Some(Ordering::Less)
                } else if a == b {
                    Some(Ordering::Equal)
                } else {
                    Some(Ordering::Greater)
                }
            },
            _ => None,
        }
    }
}

impl TryFrom<Decimal> for PositiveFloat {
    type Error = TypeError;

    /// Wraps a number that is at least zero and refuses every other value.
    fn try_from(value: Decimal) -> (r: Result<Self, TypeError>)
        ensures
            r == PositiveFloat::checked(value),
            r is Ok <==> value is Finite && value.micros() >= 0,
    {
        match value {
            Decimal::Finite(m) if m >= 0 => Ok(PositiveFloat(value)),
            _ => Err(TypeError::PositiveFloatError(value)),
        }
    }
}

impl TryFromSpecImpl<Decimal> for PositiveFloat {
    open spec fn obeys_try_from_spec() -> bool {
        true
    }

    open spec fn try_from_spec(value: Decimal) -> Result<Self, TypeError> {
        PositiveFloat::checked(value)
    }
}

/// The generator of random numbers that `rand` keeps for each thread. Nothing
/// of its state is visible here.
#[verifier::external_type_specification]
#[verifier::external_body]
pub struct ExThreadRng(rand::rngs::ThreadRng);

/// `rand::thread_rng` hands out the calling thread's generator. Nothing is
/// claimed of it.
pub assume_specification[ rand::thread_rng ]() -> (rng: ThreadRng);

/// `Rng::gen_range` on the half-open range from zero to `len`: some index
/// below `len`. Which one is left open, and two calls may differ. The empty
/// range, on which it panics, is left out.
#[verifier::external_body]
fn random_index(rng: &mut ThreadRng, len: usize) -> (index: usize)
    requires
        len > 0,
    ensures
        index < len,
{
    rng.gen_range(0..len)
}

/// Every index is in range for a series of `len` values.
pub open spec fn indices_in_range(indices: Seq<usize>, len: nat) -> bool {
    forall|i: int| 0 <= i < indices.len() ==> (#[trigger] indices[i]) < len
}

/// The values that `series` holds at `indices`, in the order of `indices`.
pub open spec fn selection(series: Seq<Decimal>, indices: Seq<usize>) -> Seq<Decimal> {
    Seq::new(indices.len(), |i: int| series[indices[i] as int])
}

/// Picks from `series` the values at `indices`, in their order. There is no
/// result where an index is out of range.
pub fn select(series: &Vec<Decimal>, indices: &Vec<usize>) -> (picked: Option<Vec<Decimal>>)
    ensures
        match picked {
            Some(values) => indices_in_range(indices@, series@.len()) && values@ == selection(
                series@,
                indices@,
            ),
            None => !indices_in_range(indices@, series@.len()),
        },
{
    let mut values: Vec<Decimal> = Vec::new();
    for i in 0..indices.len()
        invariant
            values@.len() == i,
            forall|k: int| 0 <= k < i ==> (#[trigger] indices@[k]) < series@.len(),
            forall|k: int| 0 <= k < i ==> #[trigger] values@[k] == series@[indices@[k] as int],
    {
        let index = indices[i];
        if index >= series.len() {
            return None;
        }
        values.push(series[index]);
    }
    assert(values@ =~= selection(series@, indices@));
    Some(values)
}

/// `years` indices below `len`, each drawn at random and independently of the
/// others, so an index may come more than once.
fn draw_indices(years: usize, len: usize) -> (indices: Vec<usize>)
    requires
        len > 0,
    ensures
        indices@.len() == years,
        indices_in_range(indices@, len as nat),
{
    let mut rng = rand::thread_rng();
    let mut indices: Vec<usize> = Vec::new();
    for i in 0..years
        invariant
            len > 0,
            indices@.len() == i,
            indices_in_range(indices@, len as nat),
    {
        let random_index = random_index(&mut rng, len);
        indices.push(random_index);
    }
    indices
}

/// The rates of return of an investment: one rate for every year, one rate
/// for each year, or the name of a series of historical rates to draw from.
#[derive(Debug)]
pub enum Interest {
    Single(Decimal),
    Multiple(Vec<Decimal>),
    Distribution(String),
}

impl Interest {
    /// Why there is no rate for each of `years` years, if there is none: a
    /// list of another length, or a name under which `distributions` holds no
    /// series, or holds an empty one while rates are to be drawn.
    pub open spec fn expansion_error(
        self,
        years: usize,
        distributions: Map<Seq<char>, Seq<Decimal>>,
    ) -> Option<SimulationError> {
        match self {
            Interest::Single(_) => None,
            Interest::Multiple(rates) => if rates@.len() != years {
                Some(SimulationError::LengthMismatch)
            } else {
                None
            },
            Interest::Distribution(name) => if !distributions.contains_key(name@) || (
            distributions[name@].len() == 0 && years > 0) {
                Some(SimulationError::DistributionNotFound)
            } else {
                None
            },
        }
    }

    /// Whether `rates` may be what comes out for `years` years. A single rate
    /// and a list leave one choice. Of rates drawn from a series only this is
    /// fixed: there are `years` of them and each occurs in the series.
    pub open spec fn expands_to(
        self,
        years: usize,
        distributions: Map<Seq<char>, Seq<Decimal>>,
        rates: Seq<Decimal>,
    ) -> bool {
        match self {
            Interest::Single(rate) => rates == Seq::new(years as nat, |i: int| rate),
            Interest::Multiple(list) => rates == list@,
            Interest::Distribution(name) => rates.len() == years && forall|i: int|
                0 <= i < rates.len() ==> distributions[name@].contains(#[trigger] rates[i]),
        }
    }

    /// One rate of return for each of `years` years.
    ///
    /// A single rate is repeated, a list is taken as it stands and must have
    /// `years` entries. From a named series each year's rate is drawn at
    /// random, uniformly and with replacement, independently of the other years.
    pub fn to_interest_rates(&self, years: usize, distributions: &Distributions) -> (r: Result<
        Vec<Decimal>,
        SimulationError,
    >)
        ensures
            match r {
                Ok(rates) => self.expansion_error(years, distributions@) is None && self.expands_to(
                    years,
                    distributions@,
                    rates@,
                ),
                Err(e) => self.expansion_error(years, distributions@) == Some(e),
            },
            r matches Ok(rates) ==> rates@.len() == years,
            self matches Interest::Single(rate) ==> r matches Ok(rates) && forall|i: int|
                0 <= i < years ==> rates@[i] == rate,
            self matches Interest::Multiple(list) ==> (list@.len() != years <==> r
                == Err::<Vec<Decimal>, SimulationError>(SimulationError::LengthMismatch)),
    {
        match self {
            Interest::Single(fixed_interest) => Ok(repeated_rate(*fixed_interest, years)),
            Interest::Multiple(multiple) => {
                if multiple.len() != years {
                    return Err(SimulationError::LengthMismatch);
                }
                Ok(copied_rates(multiple))
            },
            Interest::Distribution(dist_name) => {
                let distribution = match distributions.get(dist_name) {
                    Some(series) => series,
                    None => {
                        return Err(SimulationError::DistributionNotFound);
                    },
                };
                if years == 0 {
                    return Ok(Vec::new());
                }
                if distribution.len() == 0 {
                    return Err(SimulationError::DistributionNotFound);
                }
                let indices = draw_indices(years, distribution.len());
                match select(distribution, &indices) {
                    Some(distribution_simulation) => Ok(distribution_simulation),
                    None => Err(SimulationError::DistributionNotFound),
                }
            },
        }
    }
}

/// `rate`, `years` times.
fn repeated_rate(rate: Decimal, years: usize) -> (rates: Vec<Decimal>)
    ensures
        rates@ == Seq::new(years as nat, |i: int| rate),
{
    let mut rates: Vec<Decimal> = Vec::new();
    for i in 0..years
        invariant
            rates@.len() == i,
            forall|k: int| 0 <= k < i ==> #[trigger] rates@[k] == rate,
    {
        rates.push(rate);
    }
    assert(rates@ =~= Seq::new(years as nat, |i: int| rate));
    rates
}

/// A copy of `list`.
fn copied_rates(list: &Vec<Decimal>) -> (rates: Vec<Decimal>)
    ensures
        rates@ == list@,
{
    let mut rates: Vec<Decimal> = Vec::new();
    for i in 0..list.len()
        invariant
            rates@.len() == i,
            forall|k: int| 0 <= k < i ==> #[trigger] rates@[k] == list@[k],
    {
        rates.push(list[i]);
    }
    assert(rates@ =~= list@);
    rates
}

/// What is paid in each year: the same amount every year, or one amount for
/// each year.
#[derive(Debug)]
pub enum AnnualContribution {
    Single(PositiveFloat),
    Multiple(Vec<PositiveFloat>),
}

impl AnnualContribution {
    /// The amounts for `times` years: the single amount `times` times, or the
    /// list as it stands, which must have `times` entries.
    pub open spec fn expansion(self, times: usize) -> Result<Seq<PositiveFloat>, SimulationError> {
        match self {
            AnnualContribution::Single(amount) => Ok(Seq::new(times as nat, |i: int| amount)),
            AnnualContribution::Multiple(list) => if list@.len() == times {
                Ok(list@)
            } else {
                Err(SimulationError::LengthMismatch)
            },
        }
    }

    /// One contribution for each of `times` years.
    pub fn to_annual_contributions(&self, times: usize) -> (r: Result<
        Vec<PositiveFloat>,
        SimulationError,
    >)
        ensures
            match r {
                Ok(amounts) => self.expansion(times) == Ok::<Seq<PositiveFloat>, SimulationError>(
                    amounts@,
                ),
                Err(e) => self.expansion(times) == Err::<Seq<PositiveFloat>, SimulationError>(e),
            },
            r matches Ok(amounts) ==> amounts@.len() == times,
            self matches AnnualContribution::Single(amount) ==> r matches Ok(amounts)
                && forall|i: int| 0 <= i < times ==> amounts@[i] == amount,
            self matches AnnualContribution::Multiple(list) ==> (list@.len() != times <==> r
                == Err::<Vec<PositiveFloat>, SimulationError>(SimulationError::LengthMismatch)),
    {
        let mut amounts: Vec<PositiveFloat> = Vec::new();
        match self {
            AnnualContribution::Single(fixed_contribution) => {
                for i in 0..times
                    invariant
                        amounts@.len() == i,
                        forall|k: int| 0 <= k < i ==> #[trigger] amounts@[k] == *fixed_contribution,
                {
                    amounts.push(*fixed_contribution);
                }
                assert(amounts@ =~= Seq::new(times as nat, |i: int| *fixed_contribution));
            },
            AnnualContribution::Multiple(multiple) => {
                if multiple.len() != times {
                    return Err(SimulationError::LengthMismatch);
                }
                for i in 0..times
                    invariant
                        times == multiple@.len(),
                        amounts@.len() == i,
                        forall|k: int| 0 <= k < i ==> #[trigger] amounts@[k] == multiple@[k],
                {
                    amounts.push(multiple[i]);
                }
                assert(amounts@ =~= multiple@);
            },
        }
        Ok(amounts)
    }
}

} // verus!
