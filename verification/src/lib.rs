//! Savings-rate metrics over the balance reports of a ledger.
//!
//! A report of expenses and one of income, period by period, give the savings
//! rate of each period, the mean of the rates and the mean expenses and income
//! of a day; from these and the liabilities come three long-term figures. A
//! listing of one period gives the share of each account in its total.
//!
//! Amounts and ratios are exact fixed-point integers counted in millionths,
//! so every figure the library derives is determined by its contract.
//!
//! - `commodity`: quantities of a commodity and their display style
//! - `report`: reports over several periods and the values of their totals
//! - `listing`: listings of one period, their totals and shares
//! - `metrics`: rates, means, projections, and the band of a rate
//! - `text`: amounts read from text such as `1,234.56 USD`
//! - `render`: amounts written out as decimal numbers
//! - `colour`: a rate as coloured text
//! - `fixed`: the arithmetic in millionths underneath
//! - `laws`: what holds of every report and listing
//! - `error`: the refusals

pub mod error;
pub mod colour;
pub mod commodity;
pub mod fixed;
pub mod laws;
pub mod listing;
pub mod metrics;
pub mod render;
pub mod report;
pub mod text;
