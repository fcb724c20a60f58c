use fund_simulator_rs::decimal::Decimal;
use fund_simulator_rs::distributions::Distributions;
use fund_simulator_rs::error::SimulationError;
use fund_simulator_rs::numeral::parse_decimal;
use fund_simulator_rs::types::{select, AnnualContribution, Interest, PositiveFloat};

fn dec(x: f64) -> Decimal {
    parse_decimal(format!("{}", x).as_bytes()).unwrap_or(Decimal::NaN)
}

fn sp500() -> Distributions {
    let mut distributions = Distributions::new();
    distributions.insert("sp500".to_string(), vec![dec(0.2629), dec(-0.0438), dec(0.1)]);
    distributions
}

#[test]
fn test_single_interest_to_interest_rates() {
    let interest_rates = Interest::Single(dec(0.5)).to_interest_rates(4, &sp500()).unwrap();
    assert_eq!(interest_rates.len(), 4);
    assert!(!interest_rates.is_empty());
    assert_eq!(interest_rates, vec![dec(0.5); 4]);

    let interest_rates = Interest::Single(dec(0.5)).to_interest_rates(0, &sp500()).unwrap();
    assert_eq!(interest_rates.len(), 0);
    assert!(interest_rates.is_empty())
}

#[test]
fn test_multiple_interest_to_interest_rates() {
    let interest_rates = Interest::Multiple(vec![dec(0.5), dec(0.0), dec(0.2)]);
    assert_eq!(
        interest_rates.to_interest_rates(3, &sp500()),
        Ok(vec![dec(0.5), dec(0.0), dec(0.2)])
    );
    assert_eq!(interest_rates.to_interest_rates(1, &sp500()), Err(SimulationError::LengthMismatch));
    assert_eq!(interest_rates.to_interest_rates(4, &sp500()), Err(SimulationError::LengthMismatch));
}

#[test]
fn test_distribution_to_interest_rates() {
    let interest = Interest::Distribution("sp500".to_string());
    let series = vec![dec(0.2629), dec(-0.0438), dec(0.1)];
    for _ in 0..50 {
        let rates = interest.to_interest_rates(3, &sp500()).unwrap();
        assert_eq!(rates.len(), 3);
        for rate in rates.iter() {
            assert!(series.contains(rate));
        }
    }
}

#[test]
#[should_panic(expected = "The selected distribution doesn't exist")]
fn test_distribution_does_not_exist() {
    let interest = Interest::Distribution("non-existing-dist".to_string());
    interest
        .to_interest_rates(3, &sp500())
        .expect("The selected distribution doesn't exist");
}

#[test]
fn unknown_distribution_is_an_error() {
    let interest = Interest::Distribution("non-existing-dist".to_string());
    assert_eq!(
        interest.to_interest_rates(3, &sp500()),
        Err(SimulationError::DistributionNotFound)
    );
    assert_eq!(
        interest.to_interest_rates(0, &sp500()),
        Err(SimulationError::DistributionNotFound)
    );
}

#[test]
fn empty_distribution_yields_rates_for_no_years_only() {
    let mut distributions = Distributions::new();
    distributions.insert("flat".to_string(), vec![]);
    let interest = Interest::Distribution("flat".to_string());
    assert_eq!(interest.to_interest_rates(0, &distributions), Ok(vec![]));
    assert_eq!(
        interest.to_interest_rates(2, &distributions),
        Err(SimulationError::DistributionNotFound)
    );
}

#[test]
fn distribution_of_one_value_yields_that_value() {
    let mut distributions = Distributions::new();
    distributions.insert("only".to_string(), vec![dec(0.07)]);
    let interest = Interest::Distribution("only".to_string());
    assert_eq!(interest.to_interest_rates(5, &distributions), Ok(vec![dec(0.07); 5]));
}

#[test]
fn select_takes_the_values_at_the_indices() {
    let series = vec![dec(0.1), dec(0.2), dec(0.3)];
    assert_eq!(
        select(&series, &vec![2, 0, 0, 1]),
        Some(vec![dec(0.3), dec(0.1), dec(0.1), dec(0.2)])
    );
    assert_eq!(select(&series, &vec![]), Some(vec![]));
    assert_eq!(select(&series, &vec![0, 3]), None);
    assert_eq!(select(&vec![], &vec![0]), None);
}

#[test]
fn single_contribution_is_repeated() {
    let amount = PositiveFloat(dec(3600.0));
    assert_eq!(
        AnnualContribution::Single(amount).to_annual_contributions(3),
        Ok(vec![amount; 3])
    );
    assert_eq!(AnnualContribution::Single(amount).to_annual_contributions(0), Ok(vec![]));
}

#[test]
fn list_of_contributions_must_have_one_entry_per_year() {
    let list = vec![PositiveFloat(dec(1.0)), PositiveFloat(dec(2.0))];
    let contributions = AnnualContribution::Multiple(list.clone());
    assert_eq!(contributions.to_annual_contributions(2), Ok(list));
    assert_eq!(contributions.to_annual_contributions(1), Err(SimulationError::LengthMismatch));
    assert_eq!(contributions.to_annual_contributions(3), Err(SimulationError::LengthMismatch));
    assert_eq!(
        AnnualContribution::Multiple(vec![]).to_annual_contributions(0),
        Ok(vec![])
    );
}
