//! Balance listings of a single period, and the share of each account in their total.

use vstd::prelude::*;
use crate::commodity::Commodity;
use crate::error::ReportError;
use crate::fixed::{ratio, ratio_of};
use crate::report::{empty_span, value_models, value_of, AccountValue, PeriodReportSpan, ValueModel};

verus! {

/// The balance of one account: its short name, its full name, how deep it
/// lies in the tree of accounts, and its amounts.
#[derive(Clone, Debug, PartialEq, Eq)]
pub struct BalanceListing {
    pub name: String,
    pub full_name: String,
    pub depth: usize,
    pub amounts: Vec<Commodity>,
}

/// A row of a listing: the balance of an account, or a total.
#[derive(Clone, Debug, PartialEq, Eq)]
pub enum Balance {
    Account(BalanceListing),
    Total(Commodity),
}

/// An account's part of the total of a listing, in millionths of the total.
#[derive(Clone, Debug, PartialEq, Eq)]
pub struct ExpenseReport {
    pub amount: i128,
    pub label: String,
}

/// A label and a part of the total in millionths.
pub struct ShareModel {
    pub label: Seq<char>,
    pub amount: int,
}

impl View for ExpenseReport {
    type V = ShareModel;

    open spec fn view(&self) -> ShareModel {
        ShareModel { label: self.label@, amount: self.amount as int }
    }
}

/// The models of a sequence of shares.
pub open spec fn share_models(shares: Seq<ExpenseReport>) -> Seq<ShareModel> {
    Seq::new(shares.len(), |k: int| shares[k]@)
}

/// A row of a listing as what the metrics read of it.
pub enum RowModel {
    /// An account's full name and its amount in millionths.
    Account { label: Seq<char>, amount: int },
    /// A total.
    Total { value: ValueModel },
}

impl BalanceListing {
    /// The amount of the account in millionths: that of its first commodity, or
    /// zero where it has none.
    pub open spec fn amount_spec(self) -> int {
        if self.amounts.len() == 0 {
            0
        } else {
            self.amounts[0].amount_spec()
        }
    }

    /// The amount of the account in millionths.
    pub fn amount(&self) -> (amount: i64)
        ensures
            amount == self.amount_spec(),
    {
        if self.amounts.len() == 0 {
            0
        } else {
            self.amounts[0].quantity.amount()
        }
    }
}

impl Balance {
    /// The row that two readings of one element stand for: an account where
    /// the element has the shape of an account only, a total where it has that
    /// of a total only, and no row where it has neither. An element that has
    /// both shapes is refused.
    pub open spec fn from_shapes_spec(
        account: Option<BalanceListing>,
        total: Option<Commodity>,
    ) -> Result<Option<Balance>, ReportError> {
        match (account, total) {
            (Some(listing), None) => Ok(Some(Balance::Account(listing))),
            (None, Some(commodity)) => Ok(Some(Balance::Total(commodity))),
            (None, None) => Ok(None),
            (Some(_), Some(_)) => Err(ReportError::Parse),
        }
    }

    /// Decides what row an element is, from its reading as an account and its
    /// reading as a total.
    pub fn from_shapes(account: Option<BalanceListing>, total: Option<Commodity>) -> (row: Result<
        Option<Balance>,
        ReportError,
    >)
        ensures
            row == Balance::from_shapes_spec(account, total),
    {
        match (account, total) {
            (Some(listing), None) => Ok(Some(Balance::Account(listing))),
            (None, Some(commodity)) => Ok(Some(Balance::Total(commodity))),
            (None, None) => Ok(None),
            (Some(_), Some(_)) => Err(ReportError::Parse),
        }
    }
}

impl View for Balance {
    type V = RowModel;

    open spec fn view(&self) -> RowModel {
        match *self {
            Balance::Account(listing) => RowModel::Account {
                label: listing.full_name@,
                amount: listing.amount_spec(),
            },
            Balance::Total(commodity) => RowModel::Total {
                value: value_of(commodity, empty_span()),
            },
        }
    }
}

/// The rows of one group, in order.
pub open spec fn group_rows(group: Seq<Balance>) -> Seq<RowModel> {
    Seq::new(group.len(), |k: int| group[k]@)
}

/// The rows of all groups, one group after the other.
pub open spec fn flat_rows(groups: Seq<Vec<Balance>>) -> Seq<RowModel>
    decreases groups.len(),
{
    if groups.len() == 0 {
        Seq::empty()
    } else {
        flat_rows(groups.drop_last()) + group_rows(groups.last()@)
    }
}

/// The totals that a listing ends in: the values of its last rows, back to the
/// last account. It is empty where the listing is empty or ends in an account.
pub open spec fn trailing_totals(rows: Seq<RowModel>) -> Seq<ValueModel>
    decreases rows.len(),
{
    if rows.len() == 0 {
        Seq::empty()
    } else {
        match rows.last() {
            RowModel::Account { .. } => Seq::empty(),
            RowModel::Total { value } => trailing_totals(rows.drop_last()).push(value),
        }
    }
}

/// Whether a listing has a last row and that row is a total.
pub open spec fn ends_in_total(rows: Seq<RowModel>) -> bool {
    rows.len() > 0 && rows.last() is Total
}

/// The accounts of a listing in order, each with its part of `total` in millionths.
pub open spec fn shares_of(rows: Seq<RowModel>, total: int) -> Seq<ShareModel>
    decreases rows.len(),
{
    if rows.len() == 0 {
        Seq::empty()
    } else {
        match rows.last() {
            RowModel::Account { label, amount } => shares_of(rows.drop_last(), total).push(
                ShareModel { label, amount: ratio(amount, total) },
            ),
            RowModel::Total { .. } => shares_of(rows.drop_last(), total),
        }
    }
}

/// The amount that the shares of a listing are measured against: the first of
/// the totals that it ends in.
pub open spec fn listing_total(rows: Seq<RowModel>) -> int {
    trailing_totals(rows)[0].amount
}

/// The share of each account of a listing in its total. No share is given
/// where the total is zero.
pub open spec fn expense_shares(rows: Seq<RowModel>) -> Seq<ShareModel> {
    if listing_total(rows) == 0 {
        Seq::empty()
    } else {
        shares_of(rows, listing_total(rows))
    }
}

/// A listing ends in a total exactly if it ends in at least one total.
pub proof fn lemma_trailing_totals_nonempty(rows: Seq<RowModel>)
    ensures
        ends_in_total(rows) <==> trailing_totals(rows).len() > 0,
{
}

/// The rows of a group that were recognised as an account or as a total, in order.
pub open spec fn recognised(rows: Seq<Option<Balance>>) -> Seq<Balance>
    decreases rows.len(),
{
    if rows.len() == 0 {
        Seq::empty()
    } else {
        match rows.last() {
            Some(row) => recognised(rows.drop_last()).push(row),
            None => recognised(rows.drop_last()),
        }
    }
}

/// Leaves out the rows of a group that are neither an account nor a total.
pub fn keep_recognised(rows: Vec<Option<Balance>>) -> (kept: Vec<Balance>)
    ensures
        kept@ == recognised(rows@),
{
    let mut kept: Vec<Balance> = Vec::new();
    let ghost all = rows@;
    for row in it: rows
        invariant
            it.seq() == all,
            kept@ == recognised(all.take(it.index())),
    {
        assert(all.take(it.index() + 1).drop_last() =~= all.take(it.index()));
        match row {
            Some(row) => {
                kept.push(row);
            },
            None => {},
        }
    }
    assert(all.take(all.len() as int) =~= all);
    kept
}

/// The rows of all groups that were recognised, one group after the other.
pub open spec fn recognised_rows(groups: Seq<Vec<Option<Balance>>>) -> Seq<RowModel>
    decreases groups.len(),
{
    if groups.len() == 0 {
        Seq::empty()
    } else {
        recognised_rows(groups.drop_last()) + group_rows(recognised(groups.last()@))
    }
}

/// The rows of the groups before `groups[g]` and of the first `e` rows of that group.
pub open spec fn rows_before(groups: Seq<Vec<Balance>>, g: int, e: int) -> Seq<RowModel> {
    flat_rows(groups.take(g)) + group_rows(groups[g]@.take(e))
}

/// Going through a listing group by group and row by row goes through its rows in order.
pub proof fn lemma_rows_before(groups: Seq<Vec<Balance>>, g: int, e: int)
    requires
        0 <= g < groups.len(),
        0 <= e <= groups[g]@.len(),
    ensures
        e == 0 ==> rows_before(groups, g, e) == flat_rows(groups.take(g)),
        e < groups[g]@.len() ==> rows_before(groups, g, e + 1) == rows_before(groups, g, e).push(
            groups[g]@[e]@,
        ),
        e == groups[g]@.len() ==> rows_before(groups, g, e) == flat_rows(groups.take(g + 1)),
        g + 1 == groups.len() ==> flat_rows(groups.take(g + 1)) == flat_rows(groups),
{
    let group = groups[g]@;
    if e == 0 {
        assert(group_rows(group.take(0)) =~= Seq::<RowModel>::empty());
        assert(rows_before(groups, g, e) =~= flat_rows(groups.take(g)));
    }
    if e < group.len() {
        assert(group_rows(group.take(e + 1)) =~= group_rows(group.take(e)).push(group[e]@));
        assert(rows_before(groups, g, e + 1) =~= rows_before(groups, g, e).push(group[e]@));
    }
    if e == group.len() {
        assert(group.take(e) =~= group);
        assert(groups.take(g + 1).drop_last() =~= groups.take(g));
        assert(groups.take(g + 1).last() == groups[g]);
    }
    if g + 1 == groups.len() {
        assert(groups.take(g + 1) =~= groups);
    }
}

/// The balance listing of one period: groups of rows, read one after the
/// other as a single sequence of rows.
#[derive(Clone, Debug, PartialEq, Eq)]
pub struct BalanceAccount(Vec<Vec<Balance>>);

impl View for BalanceAccount {
    type V = Seq<RowModel>;

    closed spec fn view(&self) -> Seq<RowModel> {
        flat_rows(self.0@)
    }
}

impl BalanceAccount {
    /// The listing of the given groups of rows.
    pub fn new(balance: Vec<Vec<Balance>>) -> (listing: BalanceAccount)
        ensures
            listing@ == flat_rows(balance@),
    {
        BalanceAccount(balance)
    }

    /// The groups of rows that the listing was made of.
    pub fn groups(&self) -> (groups: &Vec<Vec<Balance>>)
        ensures
            flat_rows(groups@) == self@,
    {
        &self.0
    }

    /// The listing of the rows that were recognised: a row that is neither an
    /// account nor a total is left out, and the others keep their order.
    pub fn from_candidates(groups: Vec<Vec<Option<Balance>>>) -> (listing: BalanceAccount)
        ensures
            listing@ == recognised_rows(groups@),
    {
        let mut kept: Vec<Vec<Balance>> = Vec::new();
        let ghost all = groups@;
        for group in it: groups
            invariant
                it.seq() == all,
                flat_rows(kept@) == recognised_rows(all.take(it.index())),
        {
            let ghost before = kept@;
            assert(all.take(it.index() + 1).drop_last() =~= all.take(it.index()));
            kept.push(keep_recognised(group));
            assert(kept@.drop_last() =~= before);
        }
        assert(all.take(all.len() as int) =~= all);
        BalanceAccount(kept)
    }

    /// The totals that the listing ends in, in order. A listing that is empty
    /// or ends in an account is refused.
    pub fn get_totals(&self) -> (totals: Result<Vec<AccountValue>, ReportError>)
        ensures
            !ends_in_total(self@) <==> totals == Err::<Vec<AccountValue>, ReportError>(
                ReportError::LastRowNotTotal,
            ),
            ends_in_total(self@) <==> totals is Ok,
            totals is Ok ==> value_models(totals->Ok_0@) == trailing_totals(self@),
    {
        let groups = &self.0;
        let mut values: Vec<AccountValue> = Vec::new();
        let mut g: usize = 0;
        assert(groups@.take(0) =~= Seq::<Vec<Balance>>::empty());
        while g < groups.len()
            invariant
                g <= groups.len(),
                value_models(values@) == trailing_totals(flat_rows(groups@.take(g as int))),
            decreases groups.len() - g,
        {
            let group = &groups[g];
            let mut e: usize = 0;
            proof {
                lemma_rows_before(groups@, g as int, 0);
            }
            while e < group.len()
                invariant
                    g < groups.len(),
                    group == &groups[g as int],
                    e <= group.len(),
                    value_models(values@) == trailing_totals(
                        rows_before(groups@, g as int, e as int),
                    ),
                decreases group.len() - e,
            {
                proof {
                    lemma_rows_before(groups@, g as int, e as int);
                }
                let ghost before = rows_before(groups@, g as int, e as int);
                let ghost earlier = values@;
                match &group[e] {
                    Balance::Account(_) => {
                        values = Vec::new();
                        assert(before.push(group[e as int]@).drop_last() =~= before);
                        assert(value_models(values@) =~= Seq::<ValueModel>::empty());
                    },
                    Balance::Total(commodity) => {
                        values.push(
                            AccountValue {
                                amount: commodity.quantity.amount(),
                                commodity: commodity.commodity.clone(),
                                date_range: PeriodReportSpan::empty(),
                            },
                        );
                        assert(before.push(group[e as int]@).drop_last() =~= before);
                        assert(value_models(values@) =~= value_models(earlier).push(
                            value_of(*commodity, empty_span()),
                        ));
                    },
                }
                e = e + 1;
            }
            proof {
                lemma_rows_before(groups@, g as int, e as int);
            }
            g = g + 1;
        }
        assert(groups@.take(g as int) =~= groups@);
        proof {
            lemma_trailing_totals_nonempty(self@);
        }
        if values.len() == 0 {
            Err(ReportError::LastRowNotTotal)
        } else {
            Ok(values)
        }
    }

    /// The share of each account in the total of the listing, in the order of
    /// the listing and in millionths of the total. The total is the first of the
    /// totals that the listing ends in; where it is zero, no share is given. A
    /// listing that is empty or ends in an account is refused.
    pub fn get_expense_report(&self) -> (shares: Result<Vec<ExpenseReport>, ReportError>)
        ensures
            !ends_in_total(self@) <==> shares == Err::<Vec<ExpenseReport>, ReportError>(
                ReportError::LastRowNotTotal,
            ),
            ends_in_total(self@) <==> shares is Ok,
            shares is Ok ==> share_models(shares->Ok_0@) == expense_shares(self@),
    {
        let totals = match self.get_totals() {
            Ok(totals) => totals,
            Err(error) => {
                return Err(error);
            },
        };
        proof {
            lemma_trailing_totals_nonempty(self@);
            assert(value_models(totals@).len() == totals.len());
            assert(totals[0]@ == value_models(totals@)[0]);
        }
        let total: i64 = totals[0].amount;
        let mut shares: Vec<ExpenseReport> = Vec::new();
        if total == 0 {
            assert(share_models(shares@) =~= expense_shares(self@));
            return Ok(shares);
        }
        let groups = &self.0;
        let mut g: usize = 0;
        assert(groups@.take(0) =~= Seq::<Vec<Balance>>::empty());
        while g < groups.len()
            invariant
                g <= groups.len(),
                share_models(shares@) == shares_of(flat_rows(groups@.take(g as int)), total as int),
            decreases groups.len() - g,
        {
            let group = &groups[g];
            let mut e: usize = 0;
            proof {
                lemma_rows_before(groups@, g as int, 0);
            }
            while e < group.len()
                invariant
                    g < groups.len(),
                    group == &groups[g as int],
                    e <= group.len(),
                    share_models(shares@) == shares_of(
                        rows_before(groups@, g as int, e as int),
                        total as int,
                    ),
                decreases group.len() - e,
            {
                proof {
                    lemma_rows_before(groups@, g as int, e as int);
                }
                let ghost before = rows_before(groups@, g as int, e as int);
                let ghost earlier = shares@;
                assert(before.push(group[e as int]@).drop_last() =~= before);
                match &group[e] {
                    Balance::Account(account) => {
                        shares.push(
                            ExpenseReport {
                                amount: ratio_of(account.amount() as i128, total as i128),
                                label: account.full_name.clone(),
                            },
                        );
                        assert(share_models(shares@) =~= share_models(earlier).push(
                            ShareModel {
                                label: account.full_name@,
                                amount: ratio(account.amount_spec(), total as int),
                            },
                        ));
                    },
                    Balance::Total(_) => {},
                }
                e = e + 1;
            }
            proof {
                lemma_rows_before(groups@, g as int, e as int);
            }
            g = g + 1;
        }
        assert(groups@.take(g as int) =~= groups@);
        Ok(shares)
    }
}

} // verus!
