//! Year-by-year simulation of an investment.
//!
//! Amounts and rates are exact decimals with six digits behind the point. A
//! result that no such decimal holds is "not a number", and a simulation that
//! meets one fails instead of going on with it.

pub mod configuration;
pub mod decimal;
pub mod distributions;
pub mod error;
pub mod investment;
pub mod investment_config;
pub mod numeral;
pub mod recurrence;
pub mod types;
