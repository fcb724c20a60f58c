//! The failures that the simulation reports.

use vstd::prelude::*;
use vstd::std_specs::convert::FromSpecImpl;
use crate::decimal::Decimal;

verus! {

/// A value that one of the number types refuses.
#[derive(Clone, Copy, Debug, PartialEq, Eq, Structural)]
pub enum TypeError {
    /// The value is below zero or no number, so no `PositiveFloat` can hold it.
    PositiveFloatError(Decimal),
    /// A balance or a rate is no number.
    NaNInvalid,
}

/// Why a simulation or its summary could not be computed.
#[derive(Clone, Copy, Debug, PartialEq, Eq, Structural)]
pub enum SimulationError {
    /// A number was refused while the years were computed.
    TypeError(TypeError),
    /// There is no year to summarise.
    InvalidInvestmentResults,
    /// A list with one entry per year has another length than the number of years.
    LengthMismatch,
    /// No series of historical returns is known, or usable, under the name asked for.
    DistributionNotFound,
}

impl From<TypeError> for SimulationError {
    fn from(error: TypeError) -> (e: SimulationError) {
        SimulationError::TypeError(error)
    }
}

impl FromSpecImpl<TypeError> for SimulationError {
    open spec fn obeys_from_spec() -> bool {
        true
    }

    open spec fn from_spec(error: TypeError) -> SimulationError {
        SimulationError::TypeError(error)
    }
}

} // verus!
