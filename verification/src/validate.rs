//! Validation of what is typed into the form.

use crate::date::Date;
use crate::error::JournalError;
use crate::text::chars_of;
use crate::weight::{parse_tenths, weight_of};
use vstd::prelude::*;

verus! {

/// A text stands for a weight above zero.
pub open spec fn weight_ok(text: Seq<char>) -> bool {
    weight_of(text) matches Some(tenths) && tenths > 0
}

/// A text stands for a date.
pub open spec fn date_ok(text: Seq<char>) -> bool {
    Date::parsed(text) is Some
}

/// The date that a text of the form `DD-MM-YYYY` names, or `InvalidDate`.
pub fn validate_date(text: &str) -> (r: Result<Date, JournalError>)
    ensures
        r == (match Date::parsed(text@) {
            Some(date) => Ok::<Date, JournalError>(date),
            None => Err::<Date, JournalError>(JournalError::InvalidDate),
        }),
        r matches Ok(date) ==> date.wf(),
        r is Ok == date_ok(text@),
        forall|date: Date|
            date.wf() && text@ == #[trigger] date.text() ==> r == Ok::<Date, JournalError>(date),
{
    match Date::parse(text) {
        Some(date) => Ok(date),
        None => Err(JournalError::InvalidDate),
    }
}

/// The weight in tenths that a decimal number above zero names, or
/// `InvalidWeight`.
pub fn validate_weight(text: &str) -> (r: Result<u32, JournalError>)
    ensures
        r == (match weight_of(text@) {
            Some(tenths) => if tenths > 0 {
                Ok::<u32, JournalError>(tenths)
            } else {
                Err::<u32, JournalError>(JournalError::InvalidWeight)
            },
            None => Err::<u32, JournalError>(JournalError::InvalidWeight),
        }),
        r is Ok == weight_ok(text@),
{
    let chars = chars_of(text);
    match parse_tenths(&chars) {
        Some(tenths) => if tenths > 0 {
            Ok(tenths)
        } else {
            Err(JournalError::InvalidWeight)
        },
        None => Err(JournalError::InvalidWeight),
    }
}

} // verus!
