use savings_rate::commodity::{Commodity, Quantity, Side, Style};
use savings_rate::error::ReportError;
use savings_rate::report::{
    AccountValue, PeriodReport, PeriodReportRow, PeriodReportSpan, PeriodReportTotal, MAX_PERIODS,
};

fn money(code: &str, mantissa: isize, places: isize) -> Commodity {
    Commodity {
        commodity: String::from(code),
        price: None,
        quantity: Quantity::new(mantissa, places).unwrap(),
        style: Style {
            commodity_side: Side::Right,
            commodity_spaced: true,
            decimal_point: String::from("."),
            digit_groups: None,
            precision: 2,
        },
    }
}

fn span(start: &str, end: &str) -> PeriodReportSpan {
    PeriodReportSpan::new(String::from(start), String::from(end))
}

fn totals_of(amounts: Vec<Vec<Commodity>>) -> PeriodReportTotal {
    PeriodReportTotal { amounts, averages: Vec::new(), name: Vec::new(), totals: Vec::new() }
}

fn quarter() -> PeriodReport {
    let dates = vec![
        span("2024-01-01", "2024-02-01"),
        span("2024-02-01", "2024-03-01"),
        span("2024-03-01", "2024-04-01"),
    ];
    let rows = vec![PeriodReportRow {
        amounts: vec![vec![money("USD", 10_000, 2)], Vec::new(), vec![money("USD", 5_000, 2)]],
        averages: vec![money("USD", 5_000, 2)],
        name: String::from("Expenses:Food"),
        totals: vec![money("USD", 15_000, 2)],
    }];
    let totals = totals_of(vec![
        vec![money("USD", 10_000, 2)],
        Vec::new(),
        vec![money("USD", 5_000, 2), money("EUR", 125, 1)],
    ]);
    PeriodReport::new(dates, rows, totals).unwrap()
}

#[test]
fn number_of_periods() {
    assert_eq!(quarter().num_dates(), 3);
    let empty = PeriodReport::new(Vec::new(), Vec::new(), totals_of(Vec::new())).unwrap();
    assert_eq!(empty.num_dates(), 0);
}

#[test]
fn total_of_a_period() {
    let values = quarter().total_at_index(0).unwrap();
    assert_eq!(
        values,
        vec![AccountValue {
            amount: 100_000_000,
            commodity: String::from("USD"),
            date_range: span("2024-01-01", "2024-02-01"),
        }]
    );
}

#[test]
fn empty_slot_counts_as_zero() {
    let values = quarter().total_at_index(1).unwrap();
    assert_eq!(
        values,
        vec![AccountValue {
            amount: 0,
            commodity: String::from("USD"),
            date_range: span("2024-02-01", "2024-03-01"),
        }]
    );
}

#[test]
fn every_commodity_of_a_slot_is_tagged_with_the_period() {
    let values = quarter().total_at_index(2).unwrap();
    assert_eq!(values.len(), 2);
    assert_eq!(values[0].amount, 50_000_000);
    assert_eq!(values[0].commodity, "USD");
    assert_eq!(values[0].date_range, span("2024-03-01", "2024-04-01"));
    assert_eq!(values[1].amount, 12_500_000);
    assert_eq!(values[1].commodity, "EUR");
    assert_eq!(values[1].date_range, span("2024-03-01", "2024-04-01"));
}

#[test]
fn index_outside_the_report_is_refused() {
    assert_eq!(quarter().total_at_index(3), Err(ReportError::Index));
    assert_eq!(quarter().total_at_index(usize::MAX), Err(ReportError::Index));
    assert_eq!(quarter().value_at_index(3), Err(ReportError::Index));
    let empty = PeriodReport::new(Vec::new(), Vec::new(), totals_of(Vec::new())).unwrap();
    assert_eq!(empty.total_at_index(0), Err(ReportError::Index));
}

#[test]
fn first_value_of_a_period() {
    let report = quarter();
    assert_eq!(report.value_at_index(0).unwrap().amount, 100_000_000);
    assert_eq!(report.value_at_index(1).unwrap().amount, 0);
    assert_eq!(report.value_at_index(1).unwrap().commodity, "USD");
    assert_eq!(report.value_at_index(2).unwrap().amount, 50_000_000);
    assert_eq!(report.value_at_index(2).unwrap().date_range, span("2024-03-01", "2024-04-01"));
}

#[test]
fn slots_must_match_the_periods() {
    let dates = vec![span("2024-01-01", "2024-02-01")];
    let short = PeriodReport::new(dates, Vec::new(), totals_of(Vec::new()));
    assert_eq!(short.unwrap_err(), ReportError::PeriodMismatch);
    let long = PeriodReport::new(Vec::new(), Vec::new(), totals_of(vec![Vec::new()]));
    assert_eq!(long.unwrap_err(), ReportError::PeriodMismatch);
}

#[test]
fn parts_of_a_report_can_be_read_back() {
    let report = quarter();
    assert_eq!(report.dates().len(), 3);
    assert_eq!(report.dates()[1], span("2024-02-01", "2024-03-01"));
    assert_eq!(report.rows().len(), 1);
    assert_eq!(report.rows()[0].name, "Expenses:Food");
    assert_eq!(report.totals().amounts.len(), 3);
    assert!(report.num_dates() <= MAX_PERIODS);
}

#[test]
fn span_without_dates() {
    let empty = PeriodReportSpan::empty();
    assert_eq!(empty.start, "");
    assert_eq!(empty.end, "");
    assert_eq!(span("a", "b").clone(), span("a", "b"));
}

#[test]
fn messages_of_the_errors() {
    assert_eq!(ReportError::LastRowNotTotal.message(), "last row must be a total");
    assert_eq!(ReportError::NoPeriods.message(), "no expenses/income recorded");
    assert_ne!(ReportError::Parse.message(), ReportError::Index.message());
    assert_ne!(ReportError::PeriodMismatch.message(), ReportError::TooManyPeriods.message());
}
