use savings_rate::commodity::{Commodity, Quantity, Side, Style};
use savings_rate::error::ReportError;
use savings_rate::metrics::{
    compute_projections, compute_series, palette_slot, rate_band, RateBand, Series,
};
use savings_rate::report::{PeriodReport, PeriodReportSpan, PeriodReportTotal};

fn usd(units: isize) -> Commodity {
    Commodity {
        commodity: String::from("USD"),
        price: None,
        quantity: Quantity::new(units, 0).unwrap(),
        style: Style {
            commodity_side: Side::Right,
            commodity_spaced: true,
            decimal_point: String::from("."),
            digit_groups: None,
            precision: 2,
        },
    }
}

/// A report with one period for each amount; `None` is an empty slot.
fn report(amounts: &[Option<isize>]) -> PeriodReport {
    let mut dates = Vec::new();
    let mut slots = Vec::new();
    for (index, amount) in amounts.iter().enumerate() {
        dates.push(PeriodReportSpan::new(format!("start {}", index), format!("end {}", index)));
        slots.push(match amount {
            Some(units) => vec![usd(*units)],
            None => Vec::new(),
        });
    }
    let totals = PeriodReportTotal {
        amounts: slots,
        averages: Vec::new(),
        name: Vec::new(),
        totals: Vec::new(),
    };
    PeriodReport::new(dates, Vec::new(), totals).unwrap()
}

fn series(expenses: &[Option<isize>], income: &[Option<isize>]) -> Series {
    compute_series(&report(expenses), &report(income)).unwrap()
}

#[test]
fn two_periods() {
    let series = series(&[Some(100), Some(200)], &[Some(200), Some(200)]);
    assert_eq!(series.rates, vec![(0, 50_000_000), (1, 0)]);
    assert_eq!(series.cumulative_rate, 250_000);
    assert_eq!(series.cumulative_percent(), Some(25_000_000));
}

#[test]
fn period_without_income_has_a_rate_of_zero() {
    let series = series(&[Some(100), Some(50), Some(0)], &[Some(0), None, Some(0)]);
    assert_eq!(series.rates, vec![(0, 0), (1, 0), (2, 0)]);
    assert_eq!(series.cumulative_rate, 0);
    assert_eq!(series.avg_daily_income, 0);
}

#[test]
fn cumulative_rate_is_the_mean_of_the_rates() {
    let series = series(&[Some(50), Some(150), Some(100)], &[Some(100), Some(100), Some(400)]);
    // The rates are 0.5, -0.5 and 0.75.
    assert_eq!(series.rates, vec![(0, 50_000_000), (1, -50_000_000), (2, 75_000_000)]);
    assert_eq!(series.cumulative_rate, 250_000);
    let sum: i128 = series.rates.iter().map(|point| point.1).sum();
    assert_eq!(series.cumulative_rate, sum / 300);
}

#[test]
fn mean_is_rounded_toward_zero() {
    let series = series(&[Some(2), Some(3), Some(3)], &[Some(3), Some(3), Some(3)]);
    // One rate of a third and two of zero.
    assert_eq!(series.rates, vec![(0, 33_333_300), (1, 0), (2, 0)]);
    assert_eq!(series.cumulative_rate, 111_111);
    let negative = compute_series(
        &report(&[Some(4), Some(3), Some(3)]),
        &report(&[Some(3), Some(3), Some(3)]),
    )
    .unwrap();
    assert_eq!(negative.rates, vec![(0, -33_333_300), (1, 0), (2, 0)]);
    assert_eq!(negative.cumulative_rate, -111_111);
}

#[test]
fn daily_averages_take_thirty_days_for_a_period() {
    let series = series(&[Some(300), Some(600)], &[Some(900), Some(1500)]);
    assert_eq!(series.avg_daily_expense, 15_000_000);
    assert_eq!(series.avg_daily_income, 40_000_000);
}

#[test]
fn daily_amounts_are_rounded_before_the_mean() {
    let series = series(&[Some(1)], &[Some(-1)]);
    assert_eq!(series.avg_daily_expense, 33_333);
    assert_eq!(series.avg_daily_income, -33_333);
    assert_eq!(series.rates, vec![(0, 200_000_000)]);
}

#[test]
fn empty_slot_is_an_amount_of_zero() {
    let series = series(&[None, Some(30)], &[Some(60), Some(60)]);
    assert_eq!(series.rates, vec![(0, 100_000_000), (1, 50_000_000)]);
    assert_eq!(series.cumulative_rate, 750_000);
    assert_eq!(series.avg_daily_expense, 500_000);
}

#[test]
fn negative_income_is_divided_by_as_it_stands() {
    let series = series(&[Some(100)], &[Some(-200)]);
    assert_eq!(series.rates, vec![(0, 150_000_000)]);
    assert_eq!(series.cumulative_rate, 1_500_000);
}

#[test]
fn reports_without_periods_are_refused() {
    assert_eq!(compute_series(&report(&[]), &report(&[])), Err(ReportError::NoPeriods));
}

#[test]
fn largest_amounts_do_not_overflow() {
    let most = 9_223_372_036_854;
    let series = series(&[Some(-most), Some(-most)], &[Some(1), Some(1)]);
    let rate: i128 = (most as i128 + 1) * 1_000_000;
    assert_eq!(series.rates, vec![(0, rate * 100), (1, rate * 100)]);
    assert_eq!(series.cumulative_rate, rate);
    assert_eq!(series.cumulative_percent(), Some(rate * 100));
}

#[test]
fn percent_that_cannot_be_held() {
    let series = Series {
        rates: Vec::new(),
        cumulative_rate: i128::MAX,
        avg_daily_expense: 0,
        avg_daily_income: 0,
    };
    assert_eq!(series.cumulative_percent(), None);
}

#[test]
fn fire_is_twenty_five_years_of_expenses() {
    let figures = compute_projections(10_000_000, 0, 0);
    assert_eq!(figures.fire, 91_250_000_000);
    assert_eq!(compute_projections(-2_000_000, 5, 7).fire, -2_000_000 * 365 * 25);
    assert_eq!(compute_projections(0, 5, 7).fire, 0);
}

#[test]
fn distances_from_the_benchmarks() {
    // Ten a day: 3650 a year, times 23 over 10 is 8395.
    let figures = compute_projections(0, 10_000_000, 1_000_000_000);
    assert_eq!(figures.aaw, 3_197_500_000);
    assert_eq!(figures.paw, 15_790_000_000);
}

#[test]
fn distances_are_never_negative() {
    let figures = compute_projections(0, 10_000_000, 100_000_000_000);
    assert_eq!(figures.aaw, 95_802_500_000);
    assert_eq!(figures.paw, 83_210_000_000);
    let figures = compute_projections(0, -10_000_000, 0);
    assert_eq!(figures.aaw, 4_197_500_000);
    assert_eq!(figures.paw, 16_790_000_000);
    let figures = compute_projections(i64::MIN, i64::MIN, i64::MAX);
    assert!(figures.aaw >= 0);
    assert!(figures.paw >= 0);
    let figures = compute_projections(i64::MAX, i64::MAX, i64::MIN);
    assert!(figures.aaw >= 0);
    assert!(figures.paw >= 0);
}

#[test]
fn benchmark_is_rounded_toward_zero() {
    // One millionth a day: 8395 over 10 is 839, and half of it 419.
    let figures = compute_projections(0, 1, 0);
    assert_eq!(figures.aaw, 419);
    assert_eq!(figures.paw, 1_678);
    let figures = compute_projections(0, -1, 0);
    assert_eq!(figures.aaw, 419);
    assert_eq!(figures.paw, 1_678);
}

#[test]
fn palette_wraps_after_five() {
    assert_eq!(palette_slot(0), 0);
    assert_eq!(palette_slot(4), 4);
    assert_eq!(palette_slot(5), 0);
    assert_eq!(palette_slot(12), 2);
    assert_eq!(palette_slot(usize::MAX), usize::MAX % 5);
}

#[test]
fn bands_of_the_rate() {
    assert_eq!(rate_band(-1), RateBand::Alert);
    assert_eq!(rate_band(0), RateBand::Alert);
    assert_eq!(rate_band(1), RateBand::Caution);
    assert_eq!(rate_band(50_000_000), RateBand::Caution);
    assert_eq!(rate_band(50_000_001), RateBand::Affirmative);
    assert_eq!(rate_band(i128::MAX), RateBand::Affirmative);
    assert_eq!(rate_band(i128::MIN), RateBand::Alert);
}
