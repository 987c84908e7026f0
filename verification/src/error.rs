//! The ways in which an operation of the journal can fail.

use vstd::prelude::*;

verus! {

/// Why an operation was refused.
#[derive(Clone, Copy, Debug, PartialEq, Eq, Structural)]
pub enum JournalError {
    /// The text is not a date of the form `DD-MM-YYYY`.
    InvalidDate,
    /// The text is not a decimal number above zero.
    InvalidWeight,
    /// The store already holds a record of that date.
    DuplicateDate,
    /// No record stands at the position given.
    IndexOutOfRange,
    /// The first line of a persisted text does not name the two columns.
    InvalidHeader,
}

impl JournalError {
    /// A sentence for the banner.
    pub fn message(&self) -> (r: &'static str)
        ensures
            r@ == (match *self {
                JournalError::InvalidDate => "Invalid date format!"@,
                JournalError::InvalidWeight => "Invalid weight format!"@,
                JournalError::DuplicateDate => "Cannot add element. Did you mean to edit?"@,
                JournalError::IndexOutOfRange => "No row is selected."@,
                JournalError::InvalidHeader => "Invalid Header"@,
            }),
    {
        match self {
            JournalError::InvalidDate => "Invalid date format!",
            JournalError::InvalidWeight => "Invalid weight format!",
            JournalError::DuplicateDate => "Cannot add element. Did you mean to edit?",
            JournalError::IndexOutOfRange => "No row is selected.",
            JournalError::InvalidHeader => "Invalid Header",
        }
    }
}

} // verus!
