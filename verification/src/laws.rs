//! What holds of the figures of every report and every listing.

use vstd::prelude::*;
use crate::fixed::{magnitude, mean, quotient, ratio, total, SCALE};
use crate::listing::{expense_shares, listing_total, shares_of, RowModel, ShareModel};
use crate::metrics::{aaw_of, fire_of, paw_of, rate, rate_points, rates, series_of};

verus! {

/// A period without income has a savings rate of zero, whatever was spent in it.
pub proof fn zero_income_gives_zero_rate(expenses: Seq<int>, income: Seq<int>, period: int)
    requires
        expenses.len() == income.len(),
        0 <= period < income.len(),
        income[period] == 0,
    ensures
        rate(income[period], expenses[period]) == 0,
        series_of(expenses, income).rates[period] == (period, 0int),
{
}

/// The percentages of a series of points.
pub open spec fn percentages(points: Seq<(int, int)>) -> Seq<int> {
    Seq::new(points.len(), |i: int| points[i].1)
}

/// The sum of the percentages is a hundred times the sum of the rates.
proof fn lemma_percentages_total(expenses: Seq<int>, income: Seq<int>, count: int)
    requires
        expenses.len() == income.len(),
        0 <= count <= expenses.len(),
    ensures
        total(percentages(rate_points(expenses, income)).take(count)) == 100 * total(
            rates(expenses, income).take(count),
        ),
    decreases count,
{
    let p = percentages(rate_points(expenses, income));
    let r = rates(expenses, income);
    if count > 0 {
        lemma_percentages_total(expenses, income, count - 1);
        assert(p.take(count).drop_last() =~= p.take(count - 1));
        assert(r.take(count).drop_last() =~= r.take(count - 1));
    }
}

/// A quotient does not change when dividend and divisor are both multiplied by a hundred.
proof fn lemma_quotient_of_hundreds(a: int, b: int)
    requires
        b > 0,
    ensures
        quotient(100 * a, 100 * b) == quotient(a, b),
{
    let m = magnitude(a);
    vstd::arithmetic::div_mod::lemma_div_denominator(100 * m, 100, b);
    vstd::arithmetic::div_mod::lemma_div_multiples_vanish(m, 100);
    assert(100 * m == m * 100);
}

/// The cumulative rate is the arithmetic mean of the rates of the periods:
/// the sum of the percentages of the series, over a hundred times their number.
pub proof fn cumulative_rate_is_mean(expenses: Seq<int>, income: Seq<int>)
    requires
        expenses.len() == income.len(),
        expenses.len() > 0,
    ensures
        series_of(expenses, income).cumulative_rate == mean(rates(expenses, income)),
        series_of(expenses, income).cumulative_rate == quotient(
            total(percentages(series_of(expenses, income).rates)),
            100 * (expenses.len() as int),
        ),
{
    let p = percentages(rate_points(expenses, income));
    let r = rates(expenses, income);
    lemma_percentages_total(expenses, income, expenses.len() as int);
    assert(p.take(expenses.len() as int) =~= p);
    assert(r.take(expenses.len() as int) =~= r);
    lemma_quotient_of_hundreds(total(r), expenses.len() as int);
}

/// The cumulative rate, taken as a percentage, is the mean of the percentages
/// of the series up to a ten-thousandth of a percent.
pub proof fn cumulative_percent_is_mean_of_percentages(expenses: Seq<int>, income: Seq<int>)
    requires
        expenses.len() == income.len(),
        expenses.len() > 0,
    ensures
        magnitude(
            mean(percentages(series_of(expenses, income).rates)) - series_of(
                expenses,
                income,
            ).cumulative_rate * 100,
        ) <= 100,
{
    let p = percentages(rate_points(expenses, income));
    let r = rates(expenses, income);
    let n = expenses.len() as int;
    lemma_percentages_total(expenses, income, n);
    assert(p.take(n) =~= p);
    assert(r.take(n) =~= r);
    let sum = total(r);
    let fine = quotient(100 * sum, n);
    let coarse = quotient(sum, n);
    lemma_quotient_error(100 * sum, n);
    lemma_quotient_error(sum, n);
    let gap = fine - coarse * 100;
    assert(gap * n == (sum - coarse * n) * 100 - (100 * sum - fine * n)) by (nonlinear_arith)
        requires
            gap == fine - coarse * 100,
    ;
    assert(magnitude(gap * n) < 101 * n);
    if magnitude(gap) >= 101 {
        assert(magnitude(gap * n) >= 101 * n) by (nonlinear_arith)
            requires
                magnitude(gap) >= 101,
                n > 0,
        ;
    }
}

/// The retirement target is the mean expenses of a day, times the days of a
/// year, times twenty-five.
pub proof fn fire_is_exact(avg_daily_expense: int)
    ensures
        fire_of(avg_daily_expense) == avg_daily_expense * 365 * 25,
{
}

/// The distances from the two benchmarks are never negative, whatever the
/// income and the liabilities.
pub proof fn distances_are_not_negative(avg_daily_income: int, liabilities: int)
    ensures
        aaw_of(avg_daily_income, liabilities) >= 0,
        paw_of(avg_daily_income, liabilities) >= 0,
{
}

/// The sum of the amounts of the accounts of a listing.
pub open spec fn account_total(rows: Seq<RowModel>) -> int
    decreases rows.len(),
{
    if rows.len() == 0 {
        0
    } else {
        match rows.last() {
            RowModel::Account { amount, .. } => account_total(rows.drop_last()) + amount,
            RowModel::Total { .. } => account_total(rows.drop_last()),
        }
    }
}

/// The number of accounts of a listing.
pub open spec fn account_count(rows: Seq<RowModel>) -> nat
    decreases rows.len(),
{
    if rows.len() == 0 {
        0
    } else {
        match rows.last() {
            RowModel::Account { .. } => account_count(rows.drop_last()) + 1,
            RowModel::Total { .. } => account_count(rows.drop_last()),
        }
    }
}

/// The sum of a sequence of shares.
pub open spec fn share_total(shares: Seq<ShareModel>) -> int
    decreases shares.len(),
{
    if shares.len() == 0 {
        0
    } else {
        share_total(shares.drop_last()) + shares.last().amount
    }
}

/// What rounding toward zero leaves out is smaller than the divisor.
pub proof fn lemma_quotient_error(a: int, b: int)
    requires
        b != 0,
    ensures
        magnitude(a - quotient(a, b) * b) < magnitude(b),
{
    let m = magnitude(a);
    let d = magnitude(b);
    let q = m / d;
    vstd::arithmetic::div_mod::lemma_fundamental_div_mod(m, d);
    vstd::arithmetic::div_mod::lemma_mod_bound(m, d);
    assert(m == d * q + m % d);
    assert(0 <= m % d < d);
    if (a < 0) == (b < 0) {
        assert(quotient(a, b) == q);
        if a < 0 {
            assert(q * b == -(d * q)) by (nonlinear_arith)
                requires
                    b == -d,
            ;
        } else {
            assert(q * b == d * q) by (nonlinear_arith)
                requires
                    b == d,
            ;
        }
    } else {
        assert(quotient(a, b) == -q);
        if a < 0 {
            assert((-q) * b == -(d * q)) by (nonlinear_arith)
                requires
                    b == d,
            ;
        } else {
            assert((-q) * b == d * q) by (nonlinear_arith)
                requires
                    b == -d,
            ;
        }
    }
}

/// What the shares of a listing leave out of its accounts, measured in
/// millionths of the whole, is less than the whole for each account.
proof fn lemma_share_errors(rows: Seq<RowModel>, whole: int)
    requires
        whole != 0,
    ensures
        magnitude(account_total(rows) * SCALE - share_total(shares_of(rows, whole)) * whole)
            <= account_count(rows) * (magnitude(whole) - 1),
    decreases rows.len(),
{
    if rows.len() > 0 {
        let rest = rows.drop_last();
        lemma_share_errors(rest, whole);
        match rows.last() {
            RowModel::Account { label, amount } => {
                let share = ratio(amount, whole);
                let shares = shares_of(rows, whole);
                assert(shares.drop_last() =~= shares_of(rest, whole));
                assert(shares.last().amount == share);
                lemma_quotient_error(amount * SCALE, whole);
                let before = account_total(rest) * SCALE - share_total(shares_of(rest, whole))
                    * whole;
                let step = amount * SCALE - share * whole;
                let count = account_count(rest) as int;
                let gap = magnitude(whole) - 1;
                assert(account_total(rows) * SCALE - share_total(shares) * whole == before + step)
                    by (nonlinear_arith)
                    requires
                        account_total(rows) == account_total(rest) + amount,
                        share_total(shares) == share_total(shares_of(rest, whole)) + share,
                        before == account_total(rest) * SCALE - share_total(
                            shares_of(rest, whole),
                        ) * whole,
                        step == amount * SCALE - share * whole,
                ;
                assert((count + 1) * gap == count * gap + gap) by (nonlinear_arith);
            },
            RowModel::Total { .. } => {},
        }
    }
}

/// Where the total of a listing is the sum of its accounts and not zero, the
/// shares add up to one: they differ from a million millionths by less than
/// one millionth for each account.
pub proof fn shares_add_up_to_one(rows: Seq<RowModel>)
    requires
        listing_total(rows) != 0,
        listing_total(rows) == account_total(rows),
    ensures
        magnitude(share_total(expense_shares(rows)) - SCALE) < account_count(rows),
        expense_shares(rows).len() == account_count(rows),
{
    let whole = listing_total(rows);
    lemma_share_errors(rows, whole);
    lemma_share_count(rows, whole);
    let sum = share_total(expense_shares(rows));
    let count = account_count(rows) as int;
    let size = magnitude(whole);
    assert(whole * SCALE - sum * whole == -((sum - SCALE) * whole)) by (nonlinear_arith);
    assert(magnitude((sum - SCALE) * whole) == magnitude(sum - SCALE) * size) by (nonlinear_arith)
        requires
            size == magnitude(whole),
    ;
    let off = magnitude(sum - SCALE);
    assert(count >= 1);
    if off >= count {
        assert(off * size >= count * size) by (nonlinear_arith)
            requires
                off >= count,
                size >= 1,
        ;
        assert(count * size == count * (size - 1) + count) by (nonlinear_arith);
    }
}

/// A listing has one share for each of its accounts.
proof fn lemma_share_count(rows: Seq<RowModel>, whole: int)
    ensures
        shares_of(rows, whole).len() == account_count(rows),
        account_count(rows) == 0 ==> account_total(rows) == 0,
    decreases rows.len(),
{
    if rows.len() > 0 {
        lemma_share_count(rows.drop_last(), whole);
    }
}

} // verus!
