//! Balance reports over several consecutive periods.

use vstd::prelude::*;
use crate::commodity::Commodity;
use crate::error::ReportError;

verus! {

/// The most periods that a report can hold.
pub const MAX_PERIODS: usize = 0xffff_ffff;

/// The first and the last day of one reporting period.
#[derive(Debug, PartialEq, Eq)]
pub struct PeriodReportSpan {
    pub start: String,
    pub end: String,
}

/// A reporting period as two texts.
pub struct SpanModel {
    pub start: Seq<char>,
    pub end: Seq<char>,
}

impl View for PeriodReportSpan {
    type V = SpanModel;

    open spec fn view(&self) -> SpanModel {
        SpanModel { start: self.start@, end: self.end@ }
    }
}

impl PeriodReportSpan {
    /// The span from `start` to `end`.
    pub fn new(start: String, end: String) -> (span: PeriodReportSpan)
        ensures
            span@ == (SpanModel { start: start@, end: end@ }),
    {
        PeriodReportSpan { start, end }
    }

    /// The span without dates that marks a value of no particular period.
    pub fn empty() -> (span: PeriodReportSpan)
        ensures
            span@ == empty_span(),
    {
        PeriodReportSpan { start: String::new(), end: String::new() }
    }

}

impl Clone for PeriodReportSpan {
    fn clone(&self) -> (span: Self)
        ensures
            span@ == self@,
    {
        PeriodReportSpan { start: self.start.clone(), end: self.end.clone() }
    }
}

/// The span without dates.
pub open spec fn empty_span() -> SpanModel {
    SpanModel { start: Seq::empty(), end: Seq::empty() }
}

/// One account's balances, period by period.
#[derive(Clone, Debug, PartialEq, Eq)]
pub struct PeriodReportRow {
    pub amounts: Vec<Vec<Commodity>>,
    pub averages: Vec<Commodity>,
    pub name: String,
    pub totals: Vec<Commodity>,
}

/// The balances of all accounts taken together, period by period.
#[derive(Clone, Debug, PartialEq, Eq)]
pub struct PeriodReportTotal {
    pub amounts: Vec<Vec<Commodity>>,
    pub averages: Vec<Commodity>,
    pub name: Vec<String>,
    pub totals: Vec<Commodity>,
}

/// An amount of one commodity within one period.
#[derive(Clone, Debug, PartialEq, Eq)]
pub struct AccountValue {
    pub amount: i64,
    pub commodity: String,
    pub date_range: PeriodReportSpan,
}

/// An amount in millionths, its commodity code and its period.
pub struct ValueModel {
    pub amount: int,
    pub commodity: Seq<char>,
    pub date_range: SpanModel,
}

impl View for AccountValue {
    type V = ValueModel;

    open spec fn view(&self) -> ValueModel {
        ValueModel {
            amount: self.amount as int,
            commodity: self.commodity@,
            date_range: self.date_range@,
        }
    }
}

/// The models of a sequence of values.
pub open spec fn value_models(values: Seq<AccountValue>) -> Seq<ValueModel> {
    Seq::new(values.len(), |k: int| values[k]@)
}

/// The commodity code of a period without a balance.
pub open spec fn default_code() -> Seq<char> {
    "USD"@
}

/// What a commodity is worth, tagged with the period it belongs to.
pub open spec fn value_of(commodity: Commodity, span: SpanModel) -> ValueModel {
    ValueModel {
        amount: commodity.amount_spec(),
        commodity: commodity.commodity@,
        date_range: span,
    }
}

/// The values of the commodities in one slot of amounts, each tagged with the slot's period.
pub open spec fn slot_values(slot: Seq<Commodity>, span: SpanModel) -> Seq<ValueModel> {
    Seq::new(slot.len(), |k: int| value_of(slot[k], span))
}

/// The value that stands for a period without a balance.
pub open spec fn zero_value(span: SpanModel) -> ValueModel {
    ValueModel { amount: 0, commodity: default_code(), date_range: span }
}

/// A report as its periods and, for each of them, the values of the totals row.
pub struct ReportModel {
    pub spans: Seq<SpanModel>,
    pub slots: Seq<Seq<ValueModel>>,
}

impl ReportModel {
    /// Each period has its slot of amounts.
    pub open spec fn aligned(self) -> bool {
        self.spans.len() == self.slots.len()
    }

    /// The values of period `index`: those of its slot, or a single zero where the slot is empty.
    pub open spec fn values_at(self, index: int) -> Seq<ValueModel> {
        if self.slots[index].len() == 0 {
            seq![zero_value(self.spans[index])]
        } else {
            self.slots[index]
        }
    }

    /// The amount of period `index`, in millionths.
    pub open spec fn amount_at(self, index: int) -> int {
        self.values_at(index)[0].amount
    }

    /// The amounts of all periods in order, in millionths.
    pub open spec fn amounts(self) -> Seq<int> {
        Seq::new(self.spans.len(), |i: int| self.amount_at(i))
    }
}

/// The model of a report with the given dates and slots of total amounts.
pub open spec fn report_model(
    dates: Seq<PeriodReportSpan>,
    amounts: Seq<Vec<Commodity>>,
) -> ReportModel {
    ReportModel {
        spans: Seq::new(dates.len(), |i: int| dates[i]@),
        slots: Seq::new(amounts.len(), |i: int| slot_values(amounts[i]@, dates[i]@)),
    }
}

/// A balance report over consecutive periods: the periods, one row for each
/// account, and the row of totals, which has one slot of amounts for each period.
#[derive(Debug, PartialEq, Eq)]
pub struct PeriodReport {
    dates: Vec<PeriodReportSpan>,
    rows: Vec<PeriodReportRow>,
    totals: PeriodReportTotal,
}

impl View for PeriodReport {
    type V = ReportModel;

    closed spec fn view(&self) -> ReportModel {
        report_model(self.dates@, self.totals.amounts@)
    }
}

impl PeriodReport {
    #[verifier::type_invariant]
    spec fn well_formed(self) -> bool {
        self.dates.len() == self.totals.amounts.len() && self.dates.len() <= MAX_PERIODS
    }

    /// The rows of the single accounts.
    pub closed spec fn account_rows(self) -> Seq<PeriodReportRow> {
        self.rows@
    }

    /// A report of the given periods, account rows and totals. It is refused
    /// unless the totals row has exactly one slot of amounts for each period.
    pub fn new(
        dates: Vec<PeriodReportSpan>,
        rows: Vec<PeriodReportRow>,
        totals: PeriodReportTotal,
    ) -> (report: Result<PeriodReport, ReportError>)
        ensures
            dates.len() != totals.amounts.len() <==> report == Err::<PeriodReport, ReportError>(
                ReportError::PeriodMismatch,
            ),
            dates.len() == totals.amounts.len() && dates.len() > MAX_PERIODS <==> report == Err::<
                PeriodReport,
                ReportError,
            >(ReportError::TooManyPeriods),
            dates.len() == totals.amounts.len() && dates.len() <= MAX_PERIODS <==> report is Ok,
            report is Ok ==> report->Ok_0@ == report_model(dates@, totals.amounts@)
                && report->Ok_0.account_rows() == rows@ && report->Ok_0@.aligned(),
    {
        if dates.len() != totals.amounts.len() {
            Err(ReportError::PeriodMismatch)
        } else if dates.len() > MAX_PERIODS {
            Err(ReportError::TooManyPeriods)
        } else {
            Ok(PeriodReport { dates, rows, totals })
        }
    }

    /// The number of periods.
    pub fn num_dates(&self) -> (count: usize)
        ensures
            count == self@.spans.len(),
            count <= MAX_PERIODS,
            self@.aligned(),
    {
        proof {
            use_type_invariant(self);
        }
        self.dates.len()
    }

    /// The values of the totals row in period `index`: one for each commodity of
    /// the period's slot, or a single zero in the default commodity where the
    /// slot is empty. Each value is tagged with the period.
    pub fn total_at_index(&self, index: usize) -> (values: Result<Vec<AccountValue>, ReportError>)
        ensures
            index >= self@.spans.len() <==> values == Err::<Vec<AccountValue>, ReportError>(
                ReportError::Index,
            ),
            index < self@.spans.len() <==> values is Ok,
            values is Ok ==> value_models(values->Ok_0@) == self@.values_at(index as int),
            values is Ok ==> values->Ok_0.len() >= 1,
    {
        proof {
            use_type_invariant(self);
        }
        if index >= self.dates.len() {
            return Err(ReportError::Index);
        }
        let slot = &self.totals.amounts[index];
        let span = &self.dates[index];
        let mut values: Vec<AccountValue> = Vec::new();
        if slot.len() == 0 {
            values.push(
                AccountValue {
                    amount: 0,
                    commodity: String::from_str("USD"),
                    date_range: span.clone(),
                },
            );
            assert(value_models(values@) =~= self@.values_at(index as int));
        } else {
            let mut k: usize = 0;
            while k < slot.len()
                invariant
                    k <= slot.len(),
                    values.len() == k,
                    forall|j: int| 0 <= j < k ==> values[j]@ == value_of(slot[j], span@),
                decreases slot.len() - k,
            {
                let commodity = &slot[k];
                values.push(
                    AccountValue {
                        amount: commodity.quantity.amount(),
                        commodity: commodity.commodity.clone(),
                        date_range: span.clone(),
                    },
                );
                k = k + 1;
            }
            assert(value_models(values@) =~= self@.values_at(index as int));
        }
        Ok(values)
    }

    /// The value of the totals row in period `index`: the first of the values
    /// that `total_at_index` gives.
    pub fn value_at_index(&self, index: usize) -> (value: Result<AccountValue, ReportError>)
        ensures
            index >= self@.spans.len() <==> value == Err::<AccountValue, ReportError>(
                ReportError::Index,
            ),
            index < self@.spans.len() <==> value is Ok,
            value is Ok ==> value->Ok_0@ == self@.values_at(index as int)[0],
    {
        match self.total_at_index(index) {
            Ok(mut values) => {
                assert(value_models(values@).len() == values.len());
                assert(value_models(values@)[0] == values[0]@);
                Ok(values.swap_remove(0))
            },
            Err(error) => Err(error),
        }
    }

    /// The periods of the report, in order.
    pub fn dates(&self) -> (dates: &Vec<PeriodReportSpan>)
        ensures
            self@.spans == Seq::new(dates.len() as nat, |i: int| dates[i]@),
    {
        &self.dates
    }

    /// The rows of the single accounts.
    pub fn rows(&self) -> (rows: &Vec<PeriodReportRow>)
        ensures
            rows@ == self.account_rows(),
    {
        &self.rows
    }

    /// The row of totals.
    pub fn totals(&self) -> (totals: &PeriodReportTotal)
        ensures
            totals.amounts.len() == self@.spans.len(),
            self@.slots == Seq::new(
                totals.amounts.len() as nat,
                |i: int| slot_values(totals.amounts[i]@, self@.spans[i]),
            ),
    {
        proof {
            use_type_invariant(self);
        }
        assert(self@.slots =~= Seq::new(
            self.totals.amounts.len() as nat,
            |i: int| slot_values(self.totals.amounts[i]@, self@.spans[i]),
        ));
        &self.totals
    }
}

} // verus!
