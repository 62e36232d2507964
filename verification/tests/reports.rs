use equity::date::Date;
use equity::error::EquityError;
use equity::incr::{
    start_of_quarter, start_of_skewed_quarter, IncrementalReportArgs, QuarterType, Report,
    ReportOptions,
};
use equity::options::{
    OptionGrant, OptionGrantValue, OptionGrantVestingEvent, OptionGrantVestingSchedule,
};
use equity::psp::{PreferredStockPrice, PreferredStockPriceValuation};
use equity::rsu::{
    RestrictedStockUnitGrant, RestrictedStockUnitValue, RestrictedStockUnitVestingEvent,
    RestrictedStockUnitVestingSchedule, VestingInterval,
};
use equity::total::Valuation;

fn date(year: i32, month: u32, day: u32) -> Date {
    Date::new(year, month as i32, day as i32).unwrap()
}

fn quarterly_rsu_grant(
    name: &str,
    grant_price_cents: i32,
    total_value_cents: i32,
    commences: Date,
    years: u32,
) -> RestrictedStockUnitGrant {
    let value = RestrictedStockUnitValue::new(grant_price_cents, total_value_cents);
    let events = RestrictedStockUnitVestingSchedule::to_events(
        &commences,
        &VestingInterval::Quarterly,
        years,
        &value,
    )
    .unwrap();
    RestrictedStockUnitGrant::new(
        name.to_string(),
        commences,
        value,
        RestrictedStockUnitVestingSchedule::new(commences, events),
    )
}

#[test]
fn test_start_of_quarter() {
    assert_eq!(
        date(2023, 10, 1),
        start_of_quarter(&date(2023, 12, 31))
    );
    assert_eq!(date(2024, 1, 1), start_of_quarter(&date(2024, 1, 1)));
    assert_eq!(date(2024, 1, 1), start_of_quarter(&date(2024, 3, 31)));
    assert_eq!(date(2024, 4, 1), start_of_quarter(&date(2024, 4, 1)));
}

#[test]
fn test_start_of_skewed_quarter() {
    assert_eq!(date(2023, 12, 17), start_of_skewed_quarter(&date(2024, 1, 15)));
    assert_eq!(date(2023, 12, 17), start_of_skewed_quarter(&date(2024, 3, 16)));
    assert_eq!(date(2024, 3, 17), start_of_skewed_quarter(&date(2024, 3, 17)));
    assert_eq!(date(2024, 6, 17), start_of_skewed_quarter(&date(2024, 9, 16)));
    assert_eq!(date(2024, 9, 17), start_of_skewed_quarter(&date(2024, 12, 16)));
    assert_eq!(date(2024, 12, 17), start_of_skewed_quarter(&date(2024, 12, 31)));
}

#[test]
fn test_to_report_options() {
    let args = IncrementalReportArgs {
        skewed_quarter_dates: false,
        destination: "incremental.csv".to_string(),
    };
    assert_eq!(args.to_report_options().quarter_type, QuarterType::Calendar);
    let args = IncrementalReportArgs {
        skewed_quarter_dates: true,
        destination: "incremental.csv".to_string(),
    };
    assert_eq!(args.to_report_options().quarter_type, QuarterType::Skewed);
}

#[test]
fn test_daily_valuation_rsu_only() {
    let psp = PreferredStockPrice::new(vec![PreferredStockPriceValuation::new(
        date(2024, 1, 1),
        200,
    )]);
    let grant = RestrictedStockUnitGrant::new(
        "g".to_string(),
        date(2024, 1, 2),
        RestrictedStockUnitValue::new(100, 1200),
        RestrictedStockUnitVestingSchedule::new(
            date(2024, 1, 1),
            vec![
                RestrictedStockUnitVestingEvent::new(date(2024, 1, 3), 5),
                RestrictedStockUnitVestingEvent::new(date(2024, 1, 5), 7),
            ],
        ),
    );
    let no_options: Vec<OptionGrant> = vec![];
    let valuation = Valuation::new(&psp, &no_options, &vec![grant]).unwrap();
    let items = &valuation.items;
    assert_eq!(items.len(), 5);
    for (i, item) in items.iter().enumerate() {
        assert_eq!(item.date, date(2024, 1, 1 + i as u32));
        assert_eq!(item.psp, 200);
    }
    // day 1: the grant is not yet granted, nothing vested
    assert_eq!(items[0].rsu_vested_units, 0);
    assert_eq!(items[0].rsu_unvested_units, 0);
    assert_eq!(items[0].grant_total, 0);
    // day 2: the whole entitlement of 12 units becomes unvested balance
    assert_eq!(items[1].rsu_unvested_units, 12);
    assert_eq!(items[1].rsu_unvested_total, 2400);
    assert_eq!(items[1].grant_total, 2400);
    // day 3: 5 units vest
    assert_eq!(items[2].rsu_vested_units, 5);
    assert_eq!(items[2].rsu_vested_total, 1000);
    assert_eq!(items[2].rsu_unvested_units, 7);
    assert_eq!(items[2].rsu_unvested_total, 1400);
    assert_eq!(items[2].vested_total, 1000);
    assert_eq!(items[2].unvested_total, 1400);
    assert_eq!(items[2].grant_total, 2400);
    // day 4: unchanged
    assert_eq!(items[3].rsu_vested_units, 5);
    assert_eq!(items[3].rsu_unvested_units, 7);
    // day 5: the remaining 7 units vest
    assert_eq!(items[4].rsu_vested_units, 12);
    assert_eq!(items[4].rsu_vested_total, 2400);
    assert_eq!(items[4].rsu_unvested_units, 0);
    assert_eq!(items[4].grant_total, 2400);
}

#[test]
fn test_daily_valuation_options_under_water() {
    let psp = PreferredStockPrice::new(vec![PreferredStockPriceValuation::new(
        date(2024, 1, 1),
        200,
    )]);
    let grant = OptionGrant::new(
        "o".to_string(),
        date(2024, 1, 1),
        OptionGrantValue::new(250, 10),
        OptionGrantVestingSchedule::new(
            date(2024, 1, 1),
            vec![OptionGrantVestingEvent::new(date(2024, 1, 2), 10)],
        ),
    );
    let no_rsus: Vec<RestrictedStockUnitGrant> = vec![];
    let valuation = Valuation::new(&psp, &vec![grant], &no_rsus).unwrap();
    let items = &valuation.items;
    assert_eq!(items.len(), 2);
    // strike above price: the spread is negative
    assert_eq!(items[0].options_unvested_total, 10 * (200 - 250));
    assert_eq!(items[0].options_vested_total, 0);
    assert_eq!(items[1].options_vested_total, -500);
    assert_eq!(items[1].options_unvested_total, 0);
    assert_eq!(items[1].grant_total, -500);
}

#[test]
fn test_daily_valuation_starts_at_grant_date() {
    // Grants dated before every schedule commencement: the walk starts on
    // the grant date and the entitlements are credited from day one.
    let psp = PreferredStockPrice::new(vec![PreferredStockPriceValuation::new(
        date(2024, 1, 1),
        100,
    )]);
    let rsu = RestrictedStockUnitGrant::new(
        "r".to_string(),
        date(2024, 1, 1),
        RestrictedStockUnitValue::new(100, 500),
        RestrictedStockUnitVestingSchedule::new(
            date(2024, 2, 1),
            vec![RestrictedStockUnitVestingEvent::new(date(2024, 3, 1), 5)],
        ),
    );
    let opt = OptionGrant::new(
        "o".to_string(),
        date(2024, 1, 1),
        OptionGrantValue::new(50, 10),
        OptionGrantVestingSchedule::new(
            date(2024, 2, 1),
            vec![OptionGrantVestingEvent::new(date(2024, 3, 1), 10)],
        ),
    );
    let valuation = Valuation::new(&psp, &vec![opt], &vec![rsu]).unwrap();
    let items = &valuation.items;
    // one row per day of 2024-01-01 ..= 2024-03-01 (leap February)
    assert_eq!(items.len(), 61);
    assert_eq!(items[0].date, date(2024, 1, 1));
    assert_eq!(items[0].rsu_unvested_units, 5);
    assert_eq!(items[0].rsu_unvested_total, 500);
    assert_eq!(items[0].options_unvested_total, 10 * (100 - 50));
    assert_eq!(items[0].grant_total, 1000);
    let last = &items[60];
    assert_eq!(last.date, date(2024, 3, 1));
    assert_eq!(last.rsu_vested_units, 5);
    assert_eq!(last.rsu_vested_total, 500);
    assert_eq!(last.rsu_unvested_units, 0);
    assert_eq!(last.options_vested_total, 500);
    assert_eq!(last.options_unvested_total, 0);
    assert_eq!(last.grant_total, 1000);
}

#[test]
fn test_daily_valuation_no_price() {
    let psp = PreferredStockPrice::new(vec![PreferredStockPriceValuation::new(
        date(2024, 6, 1),
        200,
    )]);
    let grant = RestrictedStockUnitGrant::new(
        "g".to_string(),
        date(2024, 1, 1),
        RestrictedStockUnitValue::new(100, 500),
        RestrictedStockUnitVestingSchedule::new(
            date(2024, 1, 1),
            vec![RestrictedStockUnitVestingEvent::new(date(2024, 1, 2), 5)],
        ),
    );
    let no_options: Vec<OptionGrant> = vec![];
    let err = Valuation::new(&psp, &no_options, &vec![grant]).unwrap_err();
    assert_eq!(err, EquityError::NoValuationAvailable(date(2024, 1, 1)));
}

#[test]
fn test_incremental_report_single_grant() {
    // Total value $8000.00 at $1.00/unit, quarterly over two years: 8000
    // units in 8 events of 1000, each realized at $1.00.
    let psp = PreferredStockPrice::new(vec![PreferredStockPriceValuation::new(
        date(2024, 1, 1),
        100,
    )]);
    let grant = quarterly_rsu_grant("foo", 100, 800_000, date(2024, 1, 1), 2);
    let no_options: Vec<OptionGrant> = vec![];
    let report = Report::new(
        &psp,
        &no_options,
        &vec![grant],
        ReportOptions { quarter_type: QuarterType::Calendar },
    )
    .unwrap();
    assert_eq!(report.grant_names, vec!["foo".to_string()]);
    let lines = &report.lines;
    assert_eq!(lines.len(), 9);
    assert_eq!(lines[0].from, date(2024, 1, 1));
    assert_eq!(lines[0].to, date(2024, 3, 31));
    assert_eq!(lines[0].total, 0);
    assert_eq!(lines[0].by_grant, vec![0]);
    for i in 1..9 {
        assert_eq!(lines[i].by_grant, vec![100_000]);
        assert_eq!(lines[i].total, 100_000);
    }
    assert_eq!(lines[8].from, date(2026, 1, 1));
    assert_eq!(lines[8].to, date(2026, 3, 31));
}

#[test]
fn test_incremental_report_mixed_grants() {
    let psp = PreferredStockPrice::new(vec![
        PreferredStockPriceValuation::new(date(2024, 1, 1), 100),
        PreferredStockPriceValuation::new(date(2024, 5, 1), 300),
    ]);
    let rsu = RestrictedStockUnitGrant::new(
        "r".to_string(),
        date(2024, 1, 1),
        RestrictedStockUnitValue::new(100, 2000),
        RestrictedStockUnitVestingSchedule::new(
            date(2024, 1, 1),
            vec![
                RestrictedStockUnitVestingEvent::new(date(2024, 2, 1), 10),
                RestrictedStockUnitVestingEvent::new(date(2024, 6, 1), 10),
            ],
        ),
    );
    let opt = OptionGrant::new(
        "o".to_string(),
        date(2024, 1, 1),
        OptionGrantValue::new(50, 8),
        OptionGrantVestingSchedule::new(
            date(2024, 1, 1),
            vec![OptionGrantVestingEvent::new(date(2024, 6, 2), 8)],
        ),
    );
    let report = Report::new(
        &psp,
        &vec![opt],
        &vec![rsu],
        ReportOptions { quarter_type: QuarterType::Calendar },
    )
    .unwrap();
    // column order: option grants first, then RSU grants
    assert_eq!(report.grant_names, vec!["o".to_string(), "r".to_string()]);
    let lines = &report.lines;
    assert_eq!(lines.len(), 2);
    // Q1: only the RSU event on 2024-02-01 at price 100
    assert_eq!(lines[0].by_grant, vec![0, 1000]);
    assert_eq!(lines[0].total, 1000);
    // Q2: RSU event at price 300, option event at spread 300 - 50
    assert_eq!(lines[1].by_grant, vec![8 * 250, 3000]);
    assert_eq!(lines[1].total, 8 * 250 + 3000);
}

#[test]
fn test_incremental_report_skewed_quarters() {
    let psp = PreferredStockPrice::new(vec![PreferredStockPriceValuation::new(
        date(2023, 12, 1),
        100,
    )]);
    let rsu = RestrictedStockUnitGrant::new(
        "r".to_string(),
        date(2024, 1, 1),
        RestrictedStockUnitValue::new(100, 1000),
        RestrictedStockUnitVestingSchedule::new(
            date(2024, 1, 1),
            vec![
                RestrictedStockUnitVestingEvent::new(date(2024, 3, 16), 4),
                RestrictedStockUnitVestingEvent::new(date(2024, 3, 17), 6),
            ],
        ),
    );
    let no_options: Vec<OptionGrant> = vec![];
    let report = Report::new(
        &psp,
        &no_options,
        &vec![rsu],
        ReportOptions { quarter_type: QuarterType::Skewed },
    )
    .unwrap();
    let lines = &report.lines;
    // windows: [2023-12-17, 2024-03-16] and [2024-03-17, 2024-06-16]
    assert_eq!(lines.len(), 2);
    assert_eq!(lines[0].from, date(2023, 12, 17));
    assert_eq!(lines[0].to, date(2024, 3, 16));
    assert_eq!(lines[0].total, 400);
    assert_eq!(lines[1].from, date(2024, 3, 17));
    assert_eq!(lines[1].to, date(2024, 6, 16));
    assert_eq!(lines[1].total, 600);
}

#[test]
fn test_incremental_report_unpriced_event() {
    let psp = PreferredStockPrice::new(vec![PreferredStockPriceValuation::new(
        date(2024, 3, 1),
        100,
    )]);
    let rsu = RestrictedStockUnitGrant::new(
        "r".to_string(),
        date(2024, 1, 1),
        RestrictedStockUnitValue::new(100, 1000),
        RestrictedStockUnitVestingSchedule::new(
            date(2024, 1, 1),
            vec![RestrictedStockUnitVestingEvent::new(date(2024, 2, 1), 10)],
        ),
    );
    let no_options: Vec<OptionGrant> = vec![];
    let err = Report::new(
        &psp,
        &no_options,
        &vec![rsu],
        ReportOptions { quarter_type: QuarterType::Calendar },
    )
    .unwrap_err();
    assert_eq!(err, EquityError::NoValuationAvailable(date(2024, 2, 1)));
}

#[test]
fn test_daily_quarterly_reconciliation() {
    // For one RSU grant with no options, the daily report's vested-unit
    // gains valued at each day's price, summed over a quarter window, match
    // that window's line in the incremental report.
    let psp = PreferredStockPrice::new(vec![
        PreferredStockPriceValuation::new(date(2024, 1, 1), 100),
        PreferredStockPriceValuation::new(date(2024, 8, 15), 250),
    ]);
    let grant = quarterly_rsu_grant("foo", 100, 800_400, date(2024, 1, 1), 2);
    let no_options: Vec<OptionGrant> = vec![];
    let valuation = Valuation::new(&psp, &no_options, &vec![grant]).unwrap();
    let grant2 = quarterly_rsu_grant("foo", 100, 800_400, date(2024, 1, 1), 2);
    let no_options2: Vec<OptionGrant> = vec![];
    let report = Report::new(
        &psp,
        &no_options2,
        &vec![grant2],
        ReportOptions { quarter_type: QuarterType::Calendar },
    )
    .unwrap();
    for line in &report.lines {
        let mut delta_sum: i64 = 0;
        let mut prev_units: i64 = 0;
        for item in &valuation.items {
            let in_window = !item.date.lt(&line.from) && !line.to.lt(&item.date);
            if in_window {
                delta_sum += (item.rsu_vested_units - prev_units) * item.psp as i64;
            }
            prev_units = item.rsu_vested_units;
        }
        assert_eq!(delta_sum, line.by_grant[0]);
    }
}
