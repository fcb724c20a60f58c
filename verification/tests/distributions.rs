use fund_simulator_rs::decimal::Decimal;
use fund_simulator_rs::distributions::{
    get_distributions, parse_distribution, rates_from_records, Distributions,
};

fn csv_of(rows: usize) -> String {
    let mut text = String::from("year,return\n");
    for i in 0..rows {
        text.push_str(&format!("{},{}.{:02}\n", 1990 + i, i as i64 - 10, i));
    }
    text
}

#[test]
fn test_get_distributions() {
    let distributions = get_distributions(csv_of(30).as_bytes(), csv_of(44).as_bytes()).unwrap();

    assert_eq!(distributions.get(&"sp500".to_string()).unwrap().len(), 30);
    assert_eq!(distributions.get(&"msci_world".to_string()).unwrap().len(), 44);
}

#[test]
fn percentages_become_fractions() {
    let text = "year,return\n1990,26.29\n1991,-4.38\n1992,0\n1993,7.\n";
    assert_eq!(
        parse_distribution(text.as_bytes()),
        Some(vec![
            Decimal::Finite(262_900),
            Decimal::Finite(-43_800),
            Decimal::Finite(0),
            Decimal::Finite(70_000),
        ])
    );
}

#[test]
fn header_alone_gives_an_empty_series() {
    assert_eq!(parse_distribution(b"year,return\n"), Some(vec![]));
    assert_eq!(parse_distribution(b""), Some(vec![]));
}

#[test]
fn malformed_rate_gives_no_series() {
    assert_eq!(parse_distribution(b"year,return\n1990,abc\n"), None);
    assert_eq!(parse_distribution(b"year,return\n1990,1.0\n1991,\n"), None);
    assert_eq!(parse_distribution(b"year\n1990\n"), None);
    assert!(get_distributions(b"year,return\n1990,1.0\n", b"year,return\n1990,x\n").is_none());
    assert!(get_distributions(b"year,return\n1990,x\n", b"year,return\n1990,1.0\n").is_none());
}

#[test]
fn records_that_cannot_be_read_are_passed_over() {
    // the second record has one field more than the header
    let text = "year,return\n1990,1.5\n1991,2.5,extra\n1992,3.5\n";
    assert_eq!(
        parse_distribution(text.as_bytes()),
        Some(vec![Decimal::Finite(15_000), Decimal::Finite(35_000)])
    );
}

#[test]
fn rates_are_taken_from_the_second_field() {
    let records = vec![
        Some(vec![b"a".to_vec(), b"12.5".to_vec(), b"99".to_vec()]),
        None,
        Some(vec![b"b".to_vec(), b"-100".to_vec()]),
    ];
    assert_eq!(
        rates_from_records(&records),
        Some(vec![Decimal::Finite(125_000), Decimal::Finite(-1_000_000)])
    );
    assert_eq!(rates_from_records(&vec![]), Some(vec![]));
    assert_eq!(rates_from_records(&vec![None, None]), Some(vec![]));
    assert_eq!(rates_from_records(&vec![Some(vec![b"12.5".to_vec()])]), None);
    assert_eq!(rates_from_records(&vec![Some(vec![])]), None);
    assert_eq!(
        rates_from_records(&vec![Some(vec![b"a".to_vec(), b"1e3".to_vec()])]),
        None
    );
}

#[test]
fn later_insert_replaces_and_returns_the_series() {
    let mut distributions = Distributions::new();
    assert!(distributions.get(&"a".to_string()).is_none());
    assert_eq!(distributions.insert("a".to_string(), vec![Decimal::Finite(1)]), None);
    assert_eq!(distributions.insert("b".to_string(), vec![Decimal::Finite(2)]), None);
    assert_eq!(
        distributions.insert("a".to_string(), vec![Decimal::Finite(3), Decimal::Finite(4)]),
        Some(vec![Decimal::Finite(1)])
    );
    assert_eq!(
        distributions.get(&"a".to_string()),
        Some(&vec![Decimal::Finite(3), Decimal::Finite(4)])
    );
    assert_eq!(distributions.get(&"b".to_string()), Some(&vec![Decimal::Finite(2)]));
    assert!(distributions.get(&"c".to_string()).is_none());
    assert!(distributions.get(&"".to_string()).is_none());
}
