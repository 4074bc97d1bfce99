//! Tests of calendar date parsing.
use mensa::date::{parse_iso_date, Date, Day, DayDeserialized};
use mensa::error::Error;

#[test]
fn parses_iso_dates() {
    assert_eq!(
        parse_iso_date("2021-10-27"),
        Ok(Date { year: 2021, month: 10, day: 27 })
    );
    assert_eq!(parse_iso_date("0001-01-01"), Ok(Date { year: 1, month: 1, day: 1 }));
    assert_eq!(
        parse_iso_date("9999-12-31"),
        Ok(Date { year: 9999, month: 12, day: 31 })
    );
}

#[test]
fn leap_years_decide_february() {
    assert_eq!(
        parse_iso_date("2020-02-29"),
        Ok(Date { year: 2020, month: 2, day: 29 })
    );
    assert_eq!(parse_iso_date("2021-02-29"), Err(Error::InvalidDate));
    assert_eq!(parse_iso_date("1900-02-29"), Err(Error::InvalidDate));
    assert_eq!(
        parse_iso_date("2000-02-29"),
        Ok(Date { year: 2000, month: 2, day: 29 })
    );
}

#[test]
fn malformed_dates_are_rejected() {
    assert_eq!(parse_iso_date(""), Err(Error::InvalidDate));
    assert_eq!(parse_iso_date("2021-1-01"), Err(Error::InvalidDate));
    assert_eq!(parse_iso_date("2021/10/27"), Err(Error::InvalidDate));
    assert_eq!(parse_iso_date("2021-13-01"), Err(Error::InvalidDate));
    assert_eq!(parse_iso_date("2021-00-10"), Err(Error::InvalidDate));
    assert_eq!(parse_iso_date("2021-04-31"), Err(Error::InvalidDate));
    assert_eq!(parse_iso_date("date-is-bad"), Err(Error::InvalidDate));
}

#[test]
fn days_parse_their_date() {
    let raw = DayDeserialized { date: "2021-10-27".to_owned(), closed: false };
    assert_eq!(
        raw.to_day(),
        Ok(Day { date: Date { year: 2021, month: 10, day: 27 }, closed: false })
    );
    let raw = DayDeserialized { date: "yesterday".to_owned(), closed: true };
    assert_eq!(raw.to_day(), Err(Error::InvalidDate));
}
