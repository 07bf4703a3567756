//! The savings rate of each period, its mean, the daily averages, and the
//! long-term figures derived from them.

use vstd::prelude::*;
use crate::error::ReportError;
use crate::fixed::{
    divide, lemma_mean_bound, lemma_quotient_bound, lemma_total_step, magnitude, mean, quotient,
    ratio, ratio_of, total, SCALE,
};
use crate::listing::{expense_shares, share_models, ends_in_total, BalanceAccount, ExpenseReport};
use crate::report::PeriodReport;

verus! {

/// The days that a period is taken to have, whatever its dates.
pub const DAYS_PER_PERIOD: i128 = 30;

/// The part of `income` that was not spent, in millionths of the income;
/// zero where there was no income.
pub open spec fn rate(income: int, expenses: int) -> int {
    ratio(income - expenses, income)
}

/// What a period's amount comes to for each of its days, rounded toward zero.
pub open spec fn daily(amount: int) -> int {
    quotient(amount, DAYS_PER_PERIOD as int)
}

/// The savings rate of each period.
pub open spec fn rates(expenses: Seq<int>, income: Seq<int>) -> Seq<int> {
    Seq::new(expenses.len(), |i: int| rate(income[i], expenses[i]))
}

/// The daily amount of each period.
pub open spec fn daily_amounts(amounts: Seq<int>) -> Seq<int> {
    Seq::new(amounts.len(), |i: int| daily(amounts[i]))
}

/// The savings rates of the periods as points of a chart: the index of each
/// period and its rate in millionths of a percent.
pub open spec fn rate_points(expenses: Seq<int>, income: Seq<int>) -> Seq<(int, int)> {
    Seq::new(expenses.len(), |i: int| (i, rate(income[i], expenses[i]) * 100))
}

/// The figures derived from the expenses and the income of the same periods.
#[derive(Clone, Debug, PartialEq, Eq)]
pub struct Series {
    /// The index of each period and its savings rate in millionths of a percent.
    pub rates: Vec<(usize, i128)>,
    /// The mean of the savings rates, in millionths.
    pub cumulative_rate: i128,
    /// The mean expenses of a day, in millionths.
    pub avg_daily_expense: i64,
    /// The mean income of a day, in millionths.
    pub avg_daily_income: i64,
}

/// The figures of a series as numbers.
pub struct SeriesModel {
    pub rates: Seq<(int, int)>,
    pub cumulative_rate: int,
    pub avg_daily_expense: int,
    pub avg_daily_income: int,
}

impl View for Series {
    type V = SeriesModel;

    open spec fn view(&self) -> SeriesModel {
        SeriesModel {
            rates: Seq::new(
                self.rates.len() as nat,
                |i: int| (self.rates[i].0 as int, self.rates[i].1 as int),
            ),
            cumulative_rate: self.cumulative_rate as int,
            avg_daily_expense: self.avg_daily_expense as int,
            avg_daily_income: self.avg_daily_income as int,
        }
    }
}

/// The figures that belong to the given expenses and income, period by period.
pub open spec fn series_of(expenses: Seq<int>, income: Seq<int>) -> SeriesModel {
    SeriesModel {
        rates: rate_points(expenses, income),
        cumulative_rate: mean(rates(expenses, income)),
        avg_daily_expense: mean(daily_amounts(expenses)),
        avg_daily_income: mean(daily_amounts(income)),
    }
}

/// The largest magnitude of a savings rate in millionths.
pub const RATE_BOUND: i128 = 0x1_0000_0000_0000_0000 * 1_000_000;

/// The largest magnitude of an amount in millionths.
pub const AMOUNT_BOUND: i128 = 0x8000_0000_0000_0000;

/// A bound on the magnitude of a daily amount in millionths.
pub const DAILY_BOUND: i128 = 0x0800_0000_0000_0000;

/// The daily amount of an amount is bounded.
proof fn lemma_daily_bound(amount: int)
    requires
        -AMOUNT_BOUND <= amount <= AMOUNT_BOUND,
    ensures
        -DAILY_BOUND <= daily(amount) <= DAILY_BOUND,
{
    let m = magnitude(amount);
    assert(DAYS_PER_PERIOD == 30);
    assert(0 <= m / 30 <= DAILY_BOUND);
}

/// Rates and daily amounts that are computed from amounts are bounded, and so are their sums.
proof fn lemma_series_bounds(expenses: Seq<int>, income: Seq<int>, count: int)
    requires
        expenses.len() == income.len(),
        0 <= count <= expenses.len(),
        count <= 0xffff_ffff,
        forall|i: int|
            0 <= i < expenses.len() ==> -AMOUNT_BOUND <= #[trigger] expenses[i] <= AMOUNT_BOUND,
        forall|i: int|
            0 <= i < income.len() ==> -AMOUNT_BOUND <= #[trigger] income[i] <= AMOUNT_BOUND,
    ensures
        magnitude(total(rates(expenses, income).take(count))) <= RATE_BOUND * 0xffff_ffff,
        magnitude(total(daily_amounts(expenses).take(count))) <= DAILY_BOUND * 0xffff_ffff,
        magnitude(total(daily_amounts(income).take(count))) <= DAILY_BOUND * 0xffff_ffff,
        -RATE_BOUND <= mean(rates(expenses, income).take(count)) <= RATE_BOUND,
        -DAILY_BOUND <= mean(daily_amounts(expenses).take(count)) <= DAILY_BOUND,
        -DAILY_BOUND <= mean(daily_amounts(income).take(count)) <= DAILY_BOUND,
{
    let r = rates(expenses, income).take(count);
    let e = daily_amounts(expenses).take(count);
    let m = daily_amounts(income).take(count);
    assert forall|i: int| 0 <= i < r.len() implies -RATE_BOUND <= #[trigger] r[i] <= RATE_BOUND by {
        lemma_quotient_bound((income[i] - expenses[i]) * SCALE, income[i]);
        assert(-AMOUNT_BOUND <= expenses[i] <= AMOUNT_BOUND);
        assert(-AMOUNT_BOUND <= income[i] <= AMOUNT_BOUND);
    }
    assert forall|i: int| 0 <= i < e.len() implies -DAILY_BOUND <= #[trigger] e[i]
        <= DAILY_BOUND by {
        assert(-AMOUNT_BOUND <= expenses[i] <= AMOUNT_BOUND);
        lemma_daily_bound(expenses[i]);
    }
    assert forall|i: int| 0 <= i < m.len() implies -DAILY_BOUND <= #[trigger] m[i]
        <= DAILY_BOUND by {
        assert(-AMOUNT_BOUND <= income[i] <= AMOUNT_BOUND);
        lemma_daily_bound(income[i]);
    }
    lemma_mean_bound(r, RATE_BOUND as int);
    lemma_mean_bound(e, DAILY_BOUND as int);
    lemma_mean_bound(m, DAILY_BOUND as int);
    let rb = RATE_BOUND as int;
    let ab = DAILY_BOUND as int;
    assert(rb * count <= rb * 0xffff_ffff) by (nonlinear_arith)
        requires
            0 <= count <= 0xffff_ffff,
            rb >= 0,
    ;
    assert(ab * count <= ab * 0xffff_ffff) by (nonlinear_arith)
        requires
            0 <= count <= 0xffff_ffff,
            ab >= 0,
    ;
}

/// The savings rate of each period, the mean of the rates, and the mean
/// expenses and income of a day, from the expenses and the income of the same
/// periods. Reports without a period are refused.
pub fn compute_series(expenses: &PeriodReport, income: &PeriodReport) -> (series: Result<
    Series,
    ReportError,
>)
    requires
        expenses@.spans.len() == income@.spans.len(),
    ensures
        expenses@.spans.len() == 0 <==> series == Err::<Series, ReportError>(
            ReportError::NoPeriods,
        ),
        expenses@.spans.len() > 0 <==> series is Ok,
        series is Ok ==> series->Ok_0@ == series_of(expenses@.amounts(), income@.amounts()),
        series is Ok ==> -RATE_BOUND <= series->Ok_0.cumulative_rate <= RATE_BOUND,
{
    let count = expenses.num_dates();
    if count == 0 || income.num_dates() == 0 {
        return Err(ReportError::NoPeriods);
    }
    let ghost spent = expenses@.amounts();
    let ghost earned = income@.amounts();
    let mut points: Vec<(usize, i128)> = Vec::new();
    let mut rate_sum: i128 = 0;
    let mut expense_sum: i128 = 0;
    let mut income_sum: i128 = 0;
    let mut i: usize = 0;
    proof {
        lemma_total_step(rates(spent, earned), 0);
        lemma_total_step(daily_amounts(spent), 0);
        lemma_total_step(daily_amounts(earned), 0);
    }
    while i < count
        invariant
            i <= count <= 0xffff_ffff,
            count == expenses@.spans.len() == income@.spans.len(),
            spent == expenses@.amounts(),
            earned == income@.amounts(),
            points.len() == i,
            forall|j: int|
                0 <= j < i ==> points[j].0 == j && points[j].1 == rate(earned[j], spent[j]) * 100,
            rate_sum == total(rates(spent, earned).take(i as int)),
            expense_sum == total(daily_amounts(spent).take(i as int)),
            income_sum == total(daily_amounts(earned).take(i as int)),
            forall|j: int| 0 <= j < i ==> -AMOUNT_BOUND <= #[trigger] spent[j] <= AMOUNT_BOUND,
            forall|j: int| 0 <= j < i ==> -AMOUNT_BOUND <= #[trigger] earned[j] <= AMOUNT_BOUND,
        decreases count - i,
    {
        let outgoing: i64 = match expenses.value_at_index(i) {
            Ok(value) => value.amount,
            Err(_) => 0,
        };
        let incoming: i64 = match income.value_at_index(i) {
            Ok(value) => value.amount,
            Err(_) => 0,
        };
        assert(outgoing == spent[i as int]);
        assert(incoming == earned[i as int]);
        let rate: i128 = ratio_of(incoming as i128 - outgoing as i128, incoming as i128);
        proof {
            lemma_total_step(rates(spent, earned), i as int);
            lemma_total_step(daily_amounts(spent), i as int);
            lemma_total_step(daily_amounts(earned), i as int);
            lemma_quotient_bound((incoming - outgoing) * SCALE, incoming as int);
            let ghost seen_spent = spent.take(i + 1);
            let ghost seen_earned = earned.take(i + 1);
            lemma_series_bounds(seen_spent, seen_earned, i + 1);
            assert(rates(seen_spent, seen_earned).take(i + 1) =~= rates(spent, earned).take(i + 1));
            assert(daily_amounts(seen_spent).take(i + 1) =~= daily_amounts(spent).take(i + 1));
            assert(daily_amounts(seen_earned).take(i + 1) =~= daily_amounts(earned).take(i + 1));
        }
        points.push((i, rate * 100));
        rate_sum = rate_sum + rate;
        expense_sum = expense_sum + divide(outgoing as i128, DAYS_PER_PERIOD);
        income_sum = income_sum + divide(incoming as i128, DAYS_PER_PERIOD);
        i = i + 1;
    }
    proof {
        lemma_series_bounds(spent, earned, count as int);
        assert(rates(spent, earned).take(count as int) =~= rates(spent, earned));
        assert(daily_amounts(spent).take(count as int) =~= daily_amounts(spent));
        assert(daily_amounts(earned).take(count as int) =~= daily_amounts(earned));
    }
    let series = Series {
        rates: points,
        cumulative_rate: divide(rate_sum, count as i128),
        avg_daily_expense: divide(expense_sum, count as i128) as i64,
        avg_daily_income: divide(income_sum, count as i128) as i64,
    };
    assert(series@.rates =~= rate_points(spent, earned));
    Ok(series)
}

/// The days of a year.
pub const DAYS_PER_YEAR: i128 = 365;

/// The years of expenses that make the retirement target.
pub const TARGET_YEARS: i128 = 25;

/// The retirement target: the expenses of a year, twenty-five times.
pub open spec fn fire_of(avg_daily_expense: int) -> int {
    avg_daily_expense * DAYS_PER_YEAR * TARGET_YEARS
}

/// The net worth that the income of a year is measured against: the income
/// times twenty-three, over ten, rounded toward zero.
pub open spec fn benchmark(avg_daily_income: int) -> int {
    quotient(avg_daily_income * DAYS_PER_YEAR * 23, 10)
}

/// The distance of the liabilities from half the benchmark, rounded toward zero.
pub open spec fn aaw_of(avg_daily_income: int, liabilities: int) -> int {
    magnitude(quotient(benchmark(avg_daily_income), 2) - liabilities)
}

/// The distance of the liabilities from twice the benchmark.
pub open spec fn paw_of(avg_daily_income: int, liabilities: int) -> int {
    magnitude(benchmark(avg_daily_income) * 2 - liabilities)
}

/// The three long-term figures, in millionths.
#[derive(Clone, Copy, Debug, PartialEq, Eq)]
pub struct Projections {
    /// The retirement target.
    pub fire: i128,
    /// The distance from the net worth of an average accumulator of wealth.
    pub aaw: i128,
    /// The distance from the net worth of a prodigious accumulator of wealth.
    pub paw: i128,
}

/// The retirement target and the distances from the two benchmarks of net
/// worth, from the mean expenses and income of a day and the liabilities.
pub fn compute_projections(
    avg_daily_expense: i64,
    avg_daily_income: i64,
    liabilities: i64,
) -> (figures: Projections)
    ensures
        figures.fire == fire_of(avg_daily_expense as int),
        figures.aaw == aaw_of(avg_daily_income as int, liabilities as int),
        figures.paw == paw_of(avg_daily_income as int, liabilities as int),
        figures.aaw >= 0,
        figures.paw >= 0,
{
    let fire: i128 = (avg_daily_expense as i128) * DAYS_PER_YEAR * TARGET_YEARS;
    let yearly: i128 = (avg_daily_income as i128) * DAYS_PER_YEAR * 23;
    let base: i128 = divide(yearly, 10);
    proof {
        lemma_quotient_bound(yearly as int, 10);
        lemma_quotient_bound(base as int, 2);
    }
    let average: i128 = divide(base, 2) - (liabilities as i128);
    let prodigious: i128 = base * 2 - (liabilities as i128);
    Projections {
        fire,
        aaw: if average < 0 {
            -average
        } else {
            average
        },
        paw: if prodigious < 0 {
            -prodigious
        } else {
            prodigious
        },
    }
}

/// The number of fills and of colours that the shares of a breakdown are drawn with.
pub const PALETTE_SIZE: usize = 5;

/// The fill and the colour of the share at `index`: the palette is gone
/// through in order, again and again.
pub fn palette_slot(index: usize) -> (slot: usize)
    ensures
        slot == index % PALETTE_SIZE,
        slot < PALETTE_SIZE,
{
    index % PALETTE_SIZE
}

/// The share of each account of a listing in its total, in the order of the listing.
pub fn compute_expense_breakdown(listing: &BalanceAccount) -> (shares: Result<
    Vec<ExpenseReport>,
    ReportError,
>)
    ensures
        !ends_in_total(listing@) <==> shares == Err::<Vec<ExpenseReport>, ReportError>(
            ReportError::LastRowNotTotal,
        ),
        ends_in_total(listing@) <==> shares is Ok,
        shares is Ok ==> share_models(shares->Ok_0@) == expense_shares(listing@),
{
    listing.get_expense_report()
}

/// How a mean savings rate is to be shown.
#[derive(Clone, Copy, Debug, PartialEq, Eq, Structural)]
pub enum RateBand {
    /// Nothing was saved.
    Alert,
    /// Up to half of the income was saved.
    Caution,
    /// More than half of the income was saved.
    Affirmative,
}

/// Fifty percent, in millionths of a percent.
pub const HALF_PERCENT: i128 = 50_000_000;

/// The band of a rate given in millionths of a percent.
pub open spec fn band_of(percent: int) -> RateBand {
    if percent <= 0 {
        RateBand::Alert
    } else if percent <= HALF_PERCENT {
        RateBand::Caution
    } else {
        RateBand::Affirmative
    }
}

/// The band of a rate given in millionths of a percent.
pub fn rate_band(percent: i128) -> (band: RateBand)
    ensures
        band == band_of(percent as int),
{
    if percent <= 0 {
        RateBand::Alert
    } else if percent <= HALF_PERCENT {
        RateBand::Caution
    } else {
        RateBand::Affirmative
    }
}

impl Series {
    /// The mean of the savings rates in millionths of a percent, unless it is
    /// too large to be held.
    pub fn cumulative_percent(&self) -> (percent: Option<i128>)
        ensures
            percent == (if i128::MIN <= self.cumulative_rate * 100 <= i128::MAX {
                Some((self.cumulative_rate * 100) as i128)
            } else {
                None
            }),
    {
        self.cumulative_rate.checked_mul(100)
    }
}

} // verus!
