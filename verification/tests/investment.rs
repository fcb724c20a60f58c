use fund_simulator_rs::decimal::Decimal;
use fund_simulator_rs::error::{SimulationError, TypeError};
use fund_simulator_rs::investment::{
    get_investment_result, results, Investment, InvestmentSnapshot,
};
use fund_simulator_rs::distributions::Distributions;
use fund_simulator_rs::numeral::parse_decimal;
use fund_simulator_rs::types::{AnnualContribution, Interest, PositiveFloat};

fn dec(x: f64) -> Decimal {
    parse_decimal(format!("{}", x).as_bytes()).unwrap_or(Decimal::NaN)
}

fn float(d: Decimal) -> f64 {
    match d {
        Decimal::Finite(micros) => micros as f64 / 1_000_000.0,
        Decimal::NaN => f64::NAN,
    }
}

fn near(a: f64, b: f64) -> bool {
    (a - b).abs() <= 4.0 * f64::EPSILON * a.abs().max(b.abs())
}

#[test]
fn test_investment_snapshot_with_nan() {
    let status = InvestmentSnapshot::new(2022, PositiveFloat(dec(1000.0)), dec(f64::NAN), dec(0.12));
    assert!(status.is_err());
    let status =
        InvestmentSnapshot::new(2022, PositiveFloat(dec(1000.0)), dec(10000.0), dec(f64::NAN));
    assert!(status.is_err());
}

#[test]
fn test_investment_simulation() {
    let no_series = Distributions::new();
    let investment = Investment::new(
        PositiveFloat::try_from(dec(10000.0)).unwrap(),
        3,
        AnnualContribution::Single(PositiveFloat(dec(0.0)))
            .to_annual_contributions(3)
            .unwrap(),
        Interest::Single(dec(0.05)).to_interest_rates(3, &no_series).unwrap(),
    );
    let investment_results = investment.simulate().unwrap();
    let expected: [f64; 3] = [10500.0, 11025.0, 11576.25];

    assert_eq!(investment_results.len(), 3);
    for (i, result) in investment_results.iter().enumerate() {
        assert!(near(float(result.final_balance()), expected[i]));
    }
}

#[test]
fn test_investment_simulation_with_annual_contribution() {
    let investment = Investment::new(
        PositiveFloat::try_from(dec(10000.0)).unwrap(),
        3,
        AnnualContribution::Single(PositiveFloat(dec(3600.0)))
            .to_annual_contributions(3)
            .unwrap(),
        vec![dec(0.05), dec(0.05), dec(0.05)],
    );
    let investment_results = investment.simulate().unwrap();
    let expected: [f64; 3] = [14280.0, 18774.0, 23492.7];

    assert_eq!(investment_results.len(), 3);
    for (i, result) in investment_results.iter().enumerate() {
        assert!(near(float(result.final_balance()), expected[i]));
    }
}

#[test]
fn test_investment_simulation_with_annual_contribution_and_negative_rates() {
    let investment = Investment::new(
        PositiveFloat::try_from(dec(10000.0)).unwrap(),
        3,
        AnnualContribution::Single(PositiveFloat(dec(3600.0)))
            .to_annual_contributions(3)
            .unwrap(),
        vec![dec(0.05), dec(-0.05), dec(-0.05)],
    );
    let investment_results = investment.simulate().unwrap();
    let expected: [f64; 3] = [14280.0, 16986.0, 19556.7];

    assert_eq!(investment_results.len(), 3);
    for (i, result) in investment_results.iter().enumerate() {
        assert!(near(float(result.final_balance()), expected[i]));
    }
}

#[test]
fn snapshots_hold_every_figure_of_their_year() {
    let investment = Investment::new(
        PositiveFloat(Decimal::Finite(10_000_000_000)),
        2,
        vec![PositiveFloat(Decimal::Finite(3_600_000_000)), PositiveFloat(Decimal::Finite(1_000_000))],
        vec![Decimal::Finite(50_000), Decimal::Finite(-50_000)],
    );
    let years = investment.simulate().unwrap();
    assert_eq!(years.len(), 2);

    assert_eq!(years[0].year(), 0);
    assert_eq!(years[0].net_contribution(), PositiveFloat(Decimal::Finite(13_600_000_000)));
    assert_eq!(years[0].initial_balance(), Decimal::Finite(13_600_000_000));
    assert_eq!(years[0].return_rate(), Decimal::Finite(50_000));
    assert_eq!(years[0].interest(), Decimal::Finite(680_000_000));
    assert_eq!(years[0].final_balance(), Decimal::Finite(14_280_000_000));
    assert_eq!(years[0].gross_profit(), Decimal::Finite(14_280_000_000));

    assert_eq!(years[1].year(), 1);
    assert_eq!(years[1].net_contribution(), PositiveFloat(Decimal::Finite(13_601_000_000)));
    assert_eq!(years[1].initial_balance(), Decimal::Finite(14_281_000_000));
    assert_eq!(years[1].return_rate(), Decimal::Finite(-50_000));
    assert_eq!(years[1].interest(), Decimal::Finite(-714_050_000));
    assert_eq!(years[1].final_balance(), Decimal::Finite(13_566_950_000));
}

#[test]
fn no_years_give_no_snapshots() {
    let investment = Investment::new(PositiveFloat(dec(10000.0)), 0, vec![], vec![]);
    assert_eq!(investment.simulate().unwrap().len(), 0);
}

#[test]
fn idle_investment_keeps_the_deposit() {
    let zero = PositiveFloat(Decimal::Finite(0));
    let investment = Investment::new(
        PositiveFloat(dec(1234.56)),
        4,
        vec![zero; 4],
        vec![Decimal::Finite(0); 4],
    );
    let years = investment.simulate().unwrap();
    assert_eq!(years.len(), 4);
    for year in years.iter() {
        assert_eq!(year.final_balance(), Decimal::Finite(1_234_560_000));
        assert_eq!(year.initial_balance(), Decimal::Finite(1_234_560_000));
        assert_eq!(year.net_contribution(), PositiveFloat(Decimal::Finite(1_234_560_000)));
    }
}

#[test]
fn growth_never_falls_with_rates_that_are_not_negative() {
    let investment = Investment::new(
        PositiveFloat(dec(500.0)),
        5,
        vec![
            PositiveFloat(dec(0.0)),
            PositiveFloat(dec(10.5)),
            PositiveFloat(dec(0.0)),
            PositiveFloat(dec(250.0)),
            PositiveFloat(dec(0.000001)),
        ],
        vec![dec(0.0), dec(0.07), dec(0.0), dec(1.5), dec(0.000001)],
    );
    let years = investment.simulate().unwrap();
    for pair in years.windows(2) {
        assert!(!pair[1].net_contribution().0.less_than(&pair[0].net_contribution().0));
        assert!(!pair[1].final_balance().less_than(&pair[0].final_balance()));
    }
}

#[test]
fn nan_rate_fails_the_whole_run() {
    for at in 0..3 {
        let mut rates = vec![dec(0.05); 3];
        rates[at] = Decimal::NaN;
        let investment = Investment::new(
            PositiveFloat(dec(10000.0)),
            3,
            vec![PositiveFloat(dec(100.0)); 3],
            rates,
        );
        assert_eq!(
            investment.simulate().unwrap_err(),
            SimulationError::TypeError(TypeError::NaNInvalid)
        );
    }
}

#[test]
fn balance_out_of_range_is_no_number() {
    let investment = Investment::new(
        PositiveFloat(Decimal::Finite(i64::MAX)),
        2,
        vec![PositiveFloat(Decimal::Finite(0)); 2],
        vec![Decimal::Finite(0), Decimal::Finite(1)],
    );
    assert_eq!(
        investment.simulate().unwrap_err(),
        SimulationError::TypeError(TypeError::NaNInvalid)
    );
}

#[test]
fn negative_contribution_is_refused_with_its_sum() {
    let investment = Investment::new(
        PositiveFloat(dec(100.0)),
        2,
        vec![PositiveFloat(dec(50.0)), PositiveFloat(dec(-151.0))],
        vec![dec(0.0), dec(0.0)],
    );
    assert_eq!(
        investment.simulate().unwrap_err(),
        SimulationError::TypeError(TypeError::PositiveFloatError(dec(-1.0)))
    );
}

#[test]
fn negative_sum_is_reported_before_a_nan_rate_of_the_same_year() {
    let investment = Investment::new(
        PositiveFloat(dec(100.0)),
        1,
        vec![PositiveFloat(dec(-101.0))],
        vec![Decimal::NaN],
    );
    assert_eq!(
        investment.simulate().unwrap_err(),
        SimulationError::TypeError(TypeError::PositiveFloatError(dec(-1.0)))
    );
}

#[test]
fn lists_of_another_length_than_the_years_are_refused() {
    let short_rates = Investment::new(
        PositiveFloat(dec(100.0)),
        2,
        vec![PositiveFloat(dec(0.0)); 2],
        vec![dec(0.0)],
    );
    assert_eq!(short_rates.simulate().unwrap_err(), SimulationError::LengthMismatch);
    let long_contributions = Investment::new(
        PositiveFloat(dec(100.0)),
        2,
        vec![PositiveFloat(dec(0.0)); 3],
        vec![dec(0.0); 2],
    );
    assert_eq!(long_contributions.simulate().unwrap_err(), SimulationError::LengthMismatch);
    let nan_in_short_rates = Investment::new(
        PositiveFloat(dec(100.0)),
        2,
        vec![PositiveFloat(dec(0.0)); 2],
        vec![Decimal::NaN],
    );
    assert_eq!(nan_in_short_rates.simulate().unwrap_err(), SimulationError::LengthMismatch);
}

#[test]
fn summary_of_no_years_fails() {
    assert_eq!(
        get_investment_result(vec![]).unwrap_err(),
        SimulationError::InvalidInvestmentResults
    );
}

#[test]
fn summary_takes_the_last_year_and_the_mean_rate() {
    let investment = Investment::new(
        PositiveFloat(dec(10000.0)),
        3,
        vec![PositiveFloat(dec(3600.0)); 3],
        vec![dec(0.05), dec(-0.05), dec(-0.05)],
    );
    let years = investment.simulate().unwrap();
    let reported = results(&years);
    assert_eq!(reported.len(), 3);
    assert_eq!(reported[2].year(), 2);
    assert_eq!(reported[2].final_balance(), dec(19556.7));
    assert_eq!(reported[1].initial_balance(), dec(17880.0));
    assert_eq!(reported[1].return_rate(), dec(-0.05));
    assert_eq!(reported[1].net_contribution(), PositiveFloat(dec(17200.0)));

    let overall = get_investment_result(reported).unwrap();
    assert_eq!(overall.investment_years(), 3);
    assert_eq!(overall.net_contributions(), PositiveFloat(dec(20800.0)));
    assert_eq!(overall.final_balance(), dec(19556.7));
    // (0.05 - 0.05 - 0.05) / 3 = -0.016666..., rounded to -0.016667
    assert_eq!(overall.average_return_rate(), Decimal::Finite(-16_667));
}

#[test]
fn mean_rate_rounds_halves_away_from_zero() {
    let investment = Investment::new(
        PositiveFloat(dec(1.0)),
        2,
        vec![PositiveFloat(dec(0.0)); 2],
        vec![Decimal::Finite(1), Decimal::Finite(2)],
    );
    let overall = get_investment_result(results(&investment.simulate().unwrap())).unwrap();
    assert_eq!(overall.average_return_rate(), Decimal::Finite(2));
}

#[test]
fn net_profit_taxes_only_what_exceeds_the_contributions() {
    let tax = PositiveFloat(dec(0.25));
    // gross 14280, paid in 13600: 14280 - 680 * 0.25
    let gain = InvestmentSnapshot::new(0, PositiveFloat(dec(13600.0)), dec(13600.0), dec(0.05)).unwrap();
    assert_eq!(gain.net_profit(tax), dec(14110.0));
    // a loss is not taxed
    let loss = InvestmentSnapshot::new(0, PositiveFloat(dec(13600.0)), dec(13600.0), dec(-0.05)).unwrap();
    assert_eq!(loss.gross_profit(), dec(12920.0));
    assert_eq!(loss.net_profit(tax), dec(12920.0));
    // gross equal to what was paid in: nothing to tax
    let even = InvestmentSnapshot::new(0, PositiveFloat(dec(13600.0)), dec(13600.0), dec(0.0)).unwrap();
    assert_eq!(even.net_profit(tax), dec(13600.0));
    // a balance below zero is not raised to zero
    let debt = InvestmentSnapshot::new(0, PositiveFloat(dec(100.0)), dec(100.0), dec(-2.0)).unwrap();
    assert_eq!(debt.net_profit(tax), dec(-100.0));
}

#[test]
fn snapshot_whose_closing_balance_is_out_of_range_is_refused() {
    let status = InvestmentSnapshot::new(
        0,
        PositiveFloat(dec(1.0)),
        Decimal::Finite(i64::MAX),
        Decimal::Finite(1_000_000),
    );
    assert_eq!(status.unwrap_err(), TypeError::NaNInvalid);
}
