use equity::date::Date;
use equity::error::EquityError;
use equity::psp::{PreferredStockPrice, PreferredStockPriceValuation};
use equity::report::format_currency;
use equity::rsu::{
    RestrictedStockUnitGrant, RestrictedStockUnitValue, RestrictedStockUnitVestingEvent,
    RestrictedStockUnitVestingSchedule, VestingInterval,
};

fn date(year: i32, month: u32, day: u32) -> Date {
    Date::new(year, month as i32, day as i32).unwrap()
}

fn materialized_grant(
    name: &str,
    grant_price_cents: i32,
    total_value_cents: i32,
    commences: Date,
    years: u32,
) -> RestrictedStockUnitGrant {
    let value = RestrictedStockUnitValue::new(grant_price_cents, total_value_cents);
    let events = RestrictedStockUnitVestingSchedule::to_events(
        &commences,
        &VestingInterval::Quarterly,
        years,
        &value,
    )
    .unwrap();
    RestrictedStockUnitGrant::new(
        name.to_string(),
        commences,
        value,
        RestrictedStockUnitVestingSchedule::new(commences, events),
    )
}

fn assert_events(
    actual: &[RestrictedStockUnitVestingEvent],
    expected: &[(Date, i32)],
) {
    assert_eq!(actual.len(), expected.len());
    for (a, (d, n)) in actual.iter().zip(expected.iter()) {
        assert_eq!(a.date, *d);
        assert_eq!(a.number, *n);
    }
}

#[test]
fn test_to_model() {
    let subject = materialized_grant("foo", 100, 800_000, date(2024, 1, 1), 2);
    assert_eq!(subject.name, "foo".to_string());
    assert_eq!(subject.granted_on, date(2024, 1, 1));
    assert_eq!(subject.value, RestrictedStockUnitValue::new(100, 800_000));
    assert_eq!(subject.vesting_schedule.commences_on, date(2024, 1, 1));
    assert_events(
        &subject.vesting_schedule.events,
        &[
            (date(2024, 4, 1), 1000),
            (date(2024, 7, 1), 1000),
            (date(2024, 10, 1), 1000),
            (date(2025, 1, 1), 1000),
            (date(2025, 4, 1), 1000),
            (date(2025, 7, 1), 1000),
            (date(2025, 10, 1), 1000),
            (date(2026, 1, 1), 1000),
        ],
    );
}

#[test]
fn test_to_model_variable_numbers() {
    let subject = materialized_grant("foo", 100, 800_400, date(2024, 1, 1), 2);
    assert_eq!(subject.name, "foo".to_string());
    assert_eq!(subject.granted_on, date(2024, 1, 1));
    assert_eq!(subject.value, RestrictedStockUnitValue::new(100, 800_400));
    assert_eq!(subject.vesting_schedule.commences_on, date(2024, 1, 1));
    assert_events(
        &subject.vesting_schedule.events,
        &[
            (date(2024, 4, 1), 1000),
            (date(2024, 7, 1), 1001),
            (date(2024, 10, 1), 1000),
            (date(2025, 1, 1), 1001),
            (date(2025, 4, 1), 1000),
            (date(2025, 7, 1), 1001),
            (date(2025, 10, 1), 1000),
            (date(2026, 1, 1), 1001),
        ],
    );
}

#[test]
fn test_to_model_fractional_shares() {
    let subject = materialized_grant("foo", 10_000, 799_500, date(2024, 1, 1), 2);
    assert_eq!(subject.name, "foo".to_string());
    assert_eq!(subject.granted_on, date(2024, 1, 1));
    assert_eq!(subject.value, RestrictedStockUnitValue::new(10_000, 799_500));
    assert_eq!(subject.vesting_schedule.commences_on, date(2024, 1, 1));
    assert_events(
        &subject.vesting_schedule.events,
        &[
            (date(2024, 4, 1), 10),
            (date(2024, 7, 1), 10),
            (date(2024, 10, 1), 10),
            (date(2025, 1, 1), 10),
            (date(2025, 4, 1), 10),
            (date(2025, 7, 1), 10),
            (date(2025, 10, 1), 10),
            (date(2026, 1, 1), 10),
        ],
    );
}

#[test]
fn test_unit_conservation_uneven_split() {
    // 1003 units over 8 events: remainder-carry keeps the exact total.
    let value = RestrictedStockUnitValue::new(100, 100_300);
    let events = RestrictedStockUnitVestingSchedule::to_events(
        &date(2024, 1, 1),
        &VestingInterval::Quarterly,
        2,
        &value,
    )
    .unwrap();
    let total: i64 = events.iter().map(|e| e.number as i64).sum();
    assert_eq!(total, 1003);
    assert_eq!(events.len(), 8);
    for e in &events {
        assert!(e.number == 125 || e.number == 126);
    }
}

#[test]
fn test_materialization_is_deterministic() {
    let value = RestrictedStockUnitValue::new(100, 800_400);
    let a = RestrictedStockUnitVestingSchedule::to_events(
        &date(2024, 1, 1),
        &VestingInterval::Quarterly,
        2,
        &value,
    )
    .unwrap();
    let b = RestrictedStockUnitVestingSchedule::to_events(
        &date(2024, 1, 1),
        &VestingInterval::Quarterly,
        2,
        &value,
    )
    .unwrap();
    assert_eq!(a.len(), b.len());
    for (x, y) in a.iter().zip(b.iter()) {
        assert_eq!(x.date, y.date);
        assert_eq!(x.number, y.number);
    }
}

#[test]
fn test_invalid_schedule_definition() {
    let value = RestrictedStockUnitValue::new(100, 800_000);
    let zero_years = RestrictedStockUnitVestingSchedule::to_events(
        &date(2024, 1, 1),
        &VestingInterval::Quarterly,
        0,
        &value,
    );
    assert_eq!(zero_years.unwrap_err(), EquityError::InvalidScheduleDefinition);

    let zero_price = RestrictedStockUnitVestingSchedule::to_events(
        &date(2024, 1, 1),
        &VestingInterval::Quarterly,
        2,
        &RestrictedStockUnitValue::new(0, 800_000),
    );
    assert_eq!(zero_price.unwrap_err(), EquityError::InvalidScheduleDefinition);
}

#[test]
fn test_value_on_step_function() {
    // Single entry (2024-01-01, $10.00): earlier dates fail, later ones
    // carry the price forward indefinitely.
    let psp = PreferredStockPrice::new(vec![PreferredStockPriceValuation::new(
        date(2024, 1, 1),
        1000,
    )]);
    assert_eq!(
        psp.value_on(&date(2023, 12, 31)).unwrap_err(),
        EquityError::NoValuationAvailable(date(2023, 12, 31))
    );
    assert_eq!(psp.value_on(&date(2024, 1, 1)).unwrap(), 1000);
    assert_eq!(psp.value_on(&date(2025, 1, 1)).unwrap(), 1000);
}

#[test]
fn test_value_on_sorts_and_picks_latest() {
    let psp = PreferredStockPrice::new(vec![
        PreferredStockPriceValuation::new(date(2024, 6, 1), 300),
        PreferredStockPriceValuation::new(date(2024, 1, 1), 100),
        PreferredStockPriceValuation::new(date(2024, 3, 1), 200),
    ]);
    assert_eq!(psp.value_on(&date(2024, 1, 1)).unwrap(), 100);
    assert_eq!(psp.value_on(&date(2024, 2, 28)).unwrap(), 100);
    assert_eq!(psp.value_on(&date(2024, 3, 1)).unwrap(), 200);
    assert_eq!(psp.value_on(&date(2024, 5, 31)).unwrap(), 200);
    assert_eq!(psp.value_on(&date(2024, 6, 1)).unwrap(), 300);
    assert_eq!(psp.value_on(&date(2030, 1, 1)).unwrap(), 300);
}

#[test]
fn test_format_currency() {
    assert_eq!("0.00", format_currency(0));
    assert_eq!("0.01", format_currency(1));
    assert_eq!("0.10", format_currency(10));
    assert_eq!("1.00", format_currency(100));
}

#[test]
fn test_format_currency_more() {
    assert_eq!("1234.56", format_currency(123_456));
    assert_eq!("-1.50", format_currency(-150));
    assert_eq!("-0.05", format_currency(-5));
    assert_eq!("80000.00", format_currency(8_000_000));
}

#[test]
fn test_date_arithmetic() {
    assert_eq!(date(2024, 1, 31).add_months(3), date(2024, 4, 30));
    assert_eq!(date(2024, 11, 30).add_months(3), date(2025, 2, 28));
    assert_eq!(date(2023, 11, 30).add_months(3), date(2024, 2, 29));
    assert_eq!(date(2024, 2, 28).next_day(), date(2024, 2, 29));
    assert_eq!(date(2023, 2, 28).next_day(), date(2023, 3, 1));
    assert_eq!(date(2024, 12, 31).next_day(), date(2025, 1, 1));
    assert_eq!(date(2025, 1, 1).prev_day(), date(2024, 12, 31));
    assert_eq!(date(2024, 3, 1).prev_day(), date(2024, 2, 29));
    assert!(Date::new(2023, 2, 29).is_none());
    assert!(Date::new(2024, 2, 29).is_some());
    assert!(Date::new(2024, 13, 1).is_none());
}

#[test]
fn test_schedule_sorts_events() {
    let schedule = RestrictedStockUnitVestingSchedule::new(
        date(2024, 1, 1),
        vec![
            RestrictedStockUnitVestingEvent::new(date(2024, 7, 1), 2),
            RestrictedStockUnitVestingEvent::new(date(2024, 4, 1), 1),
            RestrictedStockUnitVestingEvent::new(date(2024, 10, 1), 3),
        ],
    );
    assert_events(
        &schedule.events,
        &[
            (date(2024, 4, 1), 1),
            (date(2024, 7, 1), 2),
            (date(2024, 10, 1), 3),
        ],
    );
}
