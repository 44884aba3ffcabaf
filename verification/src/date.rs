//! Calendar dates of payment periods.
//!
//! A due date is held as plain year, month and day numbers. The two textual
//! date forms that the bank layouts use are parsed by chrono through the two
//! trusted wrappers below; everything downstream works on the plain fields.

use vstd::prelude::*;

verus! {

/// A calendar date at day precision.
#[derive(Clone, Copy, PartialEq, Eq, Structural, Debug)]
pub struct Date {
    pub year: i32,
    /// 1 to 12.
    pub month: u8,
    /// 1 to 31.
    pub day: u8,
}

impl Date {
    /// The month and day numbers lie in their calendar ranges.
    pub open spec fn wf(self) -> bool {
        1 <= self.month <= 12 && 1 <= self.day <= 31
    }
}

/// The date that chrono reads from `s` under the format `"%d %b %Y"`
/// (day, English month name, year), as `(year, month, day)`; `None` when the
/// bytes are not valid UTF-8 or do not match the format exactly.
pub uninterp spec fn date_of_text_form(s: Seq<u8>) -> Option<(int, int, int)>;

/// The date that chrono reads from `s` under the format `"%d.%m.%Y"`
/// (all numeric), as `(year, month, day)`; `None` when the bytes are not
/// valid UTF-8 or do not match the format exactly.
pub uninterp spec fn date_of_dotted_form(s: Seq<u8>) -> Option<(int, int, int)>;

/// Relies on chrono's `NaiveDate::parse_from_str` with format `"%d %b %Y"`:
/// the result is a function of the input text alone, and a parsed date has
/// its month in 1 to 12 and its day in 1 to 31 (`Datelike::month`/`day`).
#[verifier::external_body]
pub fn parse_date_text_form(s: &[u8]) -> (r: Option<Date>)
    ensures
        match r {
            Some(d) => date_of_text_form(s@) == Some((d.year as int, d.month as int, d.day as int))
                && d.wf(),
            None => date_of_text_form(s@) is None,
        },
{
    let t = match std::str::from_utf8(s) {
        Ok(t) => t,
        Err(_) => return None,
    };
    match chrono::NaiveDate::parse_from_str(t, "%d %b %Y") {
        Ok(d) => Some(
            Date {
                year: chrono::Datelike::year(&d),
                month: chrono::Datelike::month(&d) as u8,
                day: chrono::Datelike::day(&d) as u8,
            },
        ),
        Err(_) => None,
    }
}

/// Relies on chrono's `NaiveDate::parse_from_str` with format `"%d.%m.%Y"`:
/// the result is a function of the input text alone, and a parsed date has
/// its month in 1 to 12 and its day in 1 to 31 (`Datelike::month`/`day`).
#[verifier::external_body]
pub fn parse_date_dotted_form(s: &[u8]) -> (r: Option<Date>)
    ensures
        match r {
            Some(d) => date_of_dotted_form(s@) == Some(
                (d.year as int, d.month as int, d.day as int),
            ) && d.wf(),
            None => date_of_dotted_form(s@) is None,
        },
{
    let t = match std::str::from_utf8(s) {
        Ok(t) => t,
        Err(_) => return None,
    };
    match chrono::NaiveDate::parse_from_str(t, "%d.%m.%Y") {
        Ok(d) => Some(
            Date {
                year: chrono::Datelike::year(&d),
                month: chrono::Datelike::month(&d) as u8,
                day: chrono::Datelike::day(&d) as u8,
            },
        ),
        Err(_) => None,
    }
}

} // verus!
