//! Calendar dates and the day list of a canteen.
use vstd::prelude::*;

use crate::error::Error;
use crate::textops::{all_digits, chars_of, digits_val};

verus! {

/// Is `y` a leap year of the Gregorian calendar?
pub open spec fn spec_is_leap(y: int) -> bool {
    (y % 4 == 0 && y % 100 != 0) || y % 400 == 0
}

/// The days of month `m` in year `y`.
pub open spec fn spec_days_in_month(y: int, m: int) -> int {
    if m == 2 {
        if spec_is_leap(y) {
            29
        } else {
            28
        }
    } else if m == 4 || m == 6 || m == 9 || m == 11 {
        30
    } else {
        31
    }
}

/// Is year `y`, month `m`, day `d` a calendar date?
pub open spec fn spec_valid_date(y: int, m: int, d: int) -> bool {
    &&& 0 <= y <= 9999
    &&& 1 <= m <= 12
    &&& 1 <= d <= spec_days_in_month(y, m)
}

/// A calendar date.
#[derive(Debug, Clone, Copy, PartialEq, Eq, Structural)]
pub struct Date {
    /// The year, four digits.
    pub year: u16,
    /// The month, one-based.
    pub month: u8,
    /// The day of the month, one-based.
    pub day: u8,
}

impl Date {
    /// Is this a calendar date?
    pub open spec fn valid(&self) -> bool {
        spec_valid_date(self.year as int, self.month as int, self.day as int)
    }
}

/// Does `s` spell a calendar date as `YYYY-MM-DD`?
pub open spec fn date_parseable(s: Seq<char>) -> bool {
    &&& s.len() == 10
    &&& all_digits(s.subrange(0, 4))
    &&& s[4] == '-'
    &&& all_digits(s.subrange(5, 7))
    &&& s[7] == '-'
    &&& all_digits(s.subrange(8, 10))
    &&& spec_valid_date(
        digits_val(s.subrange(0, 4)) as int,
        digits_val(s.subrange(5, 7)) as int,
        digits_val(s.subrange(8, 10)) as int,
    )
}

/// Executable [`spec_is_leap`].
fn is_leap(y: u16) -> (r: bool)
    ensures
        r == spec_is_leap(y as int),
{
    (y % 4 == 0 && y % 100 != 0) || y % 400 == 0
}

/// Executable [`spec_days_in_month`].
fn days_in_month(y: u16, m: u8) -> (r: u8)
    ensures
        r as int == spec_days_in_month(y as int, m as int),
{
    if m == 2 {
        if is_leap(y) {
            29
        } else {
            28
        }
    } else if m == 4 || m == 6 || m == 9 || m == 11 {
        30
    } else {
        31
    }
}

/// The value of the digits of `v` between `from` and `to`, if all are digits.
fn digits_chunk(v: &Vec<char>, from: usize, to: usize) -> (r: Option<u16>)
    requires
        from <= to <= v@.len(),
        to - from <= 4,
    ensures
        match r {
            Some(value) => all_digits(v@.subrange(from as int, to as int)) && value as nat
                == digits_val(v@.subrange(from as int, to as int)) && value <= 9999,
            None => !all_digits(v@.subrange(from as int, to as int)),
        },
{
    let mut acc: u16 = 0;
    let mut i: usize = from;
    while i < to
        invariant
            from <= i <= to <= v@.len(),
            to - from <= 4,
            all_digits(v@.subrange(from as int, i as int)),
            acc as nat == digits_val(v@.subrange(from as int, i as int)),
            i - from < 1 ==> acc == 0,
            i - from < 2 ==> acc < 10,
            i - from < 3 ==> acc < 100,
            i - from < 4 ==> acc < 1000,
            acc < 10000,
        decreases to - i,
    {
        let c = v[i];
        let u = c as u32;
        if u < 48 || u > 57 {
            proof {
                assert(v@.subrange(from as int, to as int)[i - from] == v@[i as int]);
            }
            return None;
        }
        proof {
            assert(v@.subrange(from as int, i as int + 1).drop_last() =~= v@.subrange(
                from as int,
                i as int,
            ));
        }
        acc = acc * 10 + ((u - 48) as u16);
        i = i + 1;
    }
    Some(acc)
}

/// Parse a date written as `YYYY-MM-DD`.
///
/// Fails with [`Error::InvalidDate`] exactly when `s` does not spell a
/// calendar date in that format.
pub fn parse_iso_date(s: &str) -> (r: Result<Date, Error>)
    ensures
        date_parseable(s@) ==> (r matches Ok(d) && d.valid() && d.year as nat == digits_val(
            s@.subrange(0, 4),
        ) && d.month as nat == digits_val(s@.subrange(5, 7)) && d.day as nat == digits_val(
            s@.subrange(8, 10),
        )),
        !date_parseable(s@) ==> r == Err::<Date, Error>(Error::InvalidDate),
{
    let v = chars_of(s);
    if v.len() != 10 {
        return Err(Error::InvalidDate);
    }
    if !(v[4] == '-' && v[7] == '-') {
        return Err(Error::InvalidDate);
    }
    let year = match digits_chunk(&v, 0, 4) {
        Some(y) => y,
        None => {
            return Err(Error::InvalidDate);
        },
    };
    let month = match digits_chunk(&v, 5, 7) {
        Some(m) => m,
        None => {
            return Err(Error::InvalidDate);
        },
    };
    let day = match digits_chunk(&v, 8, 10) {
        Some(d) => d,
        None => {
            return Err(Error::InvalidDate);
        },
    };
    if month < 1 || month > 12 {
        return Err(Error::InvalidDate);
    }
    let month = month as u8;
    if day < 1 || day > days_in_month(year, month) as u16 {
        return Err(Error::InvalidDate);
    }
    Ok(Date { year, month, day: day as u8 })
}

/// A day of a canteen's list, as the API serves it: the date still raw text.
#[derive(Debug, Clone, PartialEq)]
pub struct DayDeserialized {
    /// The date, expected as `YYYY-MM-DD`.
    pub date: String,
    /// Whether the canteen is closed that day.
    pub closed: bool,
}

/// A day of a canteen's list, with the date parsed.
#[derive(Debug, Clone, Copy, PartialEq, Eq, Structural)]
pub struct Day {
    /// The date of this day.
    pub date: Date,
    /// Whether the canteen is closed that day.
    pub closed: bool,
}

impl DayDeserialized {
    /// Parse the raw date into a [`Day`].
    ///
    /// Fails with [`Error::InvalidDate`] exactly when the raw date does not
    /// spell a calendar date as `YYYY-MM-DD`.
    pub fn to_day(&self) -> (r: Result<Day, Error>)
        ensures
            date_parseable(self.date@) ==> (r matches Ok(day) && day.date.valid() && day.closed
                == self.closed),
            !date_parseable(self.date@) ==> r == Err::<Day, Error>(Error::InvalidDate),
    {
        match parse_iso_date(self.date.as_str()) {
            Ok(date) => Ok(Day { date, closed: self.closed }),
            Err(why) => Err(why),
        }
    }
}

} // verus!
