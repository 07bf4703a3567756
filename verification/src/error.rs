//! The ways in which a report can be refused.

use vstd::prelude::*;

verus! {

/// Why a report, or a cell of one, was refused.
#[derive(Clone, Copy, Debug, PartialEq, Eq, Structural)]
pub enum ReportError {
    /// Raw text that is no recognised shape, or a cell that is not numeric.
    Parse,
    /// A period index outside the report.
    Index,
    /// The date spans and the amount slots of a report differ in number.
    PeriodMismatch,
    /// A report of more periods than `MAX_PERIODS`.
    TooManyPeriods,
    /// A report without a single period.
    NoPeriods,
    /// A listing that is empty or does not end in a total.
    LastRowNotTotal,
}

impl ReportError {
    /// Whether the error is a broken rule of a shape that was read without fault.
    pub open spec fn structural(self) -> bool {
        self == ReportError::PeriodMismatch || self == ReportError::TooManyPeriods || self
            == ReportError::NoPeriods || self == ReportError::LastRowNotTotal
    }

    /// Tells whether the error is a broken rule of a shape that was read without fault.
    pub fn is_structural(&self) -> (structural: bool)
        ensures
            structural == self.structural(),
    {
        match self {
            ReportError::Parse => false,
            ReportError::Index => false,
            ReportError::PeriodMismatch => true,
            ReportError::TooManyPeriods => true,
            ReportError::NoPeriods => true,
            ReportError::LastRowNotTotal => true,
        }
    }

    /// The message shown for the error.
    pub fn message(&self) -> (text: &'static str)
        ensures
            text@ == (match *self {
                ReportError::Parse => "not a recognised report or number"@,
                ReportError::Index => "no such period"@,
                ReportError::PeriodMismatch => "date spans and amount slots differ in number"@,
                ReportError::TooManyPeriods => "more periods than a report can hold"@,
                ReportError::NoPeriods => "no expenses/income recorded"@,
                ReportError::LastRowNotTotal => "last row must be a total"@,
            }),
    {
        match self {
            ReportError::Parse => "not a recognised report or number",
            ReportError::Index => "no such period",
            ReportError::PeriodMismatch => "date spans and amount slots differ in number",
            ReportError::TooManyPeriods => "more periods than a report can hold",
            ReportError::NoPeriods => "no expenses/income recorded",
            ReportError::LastRowNotTotal => "last row must be a total",
        }
    }
}

} // verus!
