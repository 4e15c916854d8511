use kvhooks::date::format_iso;
use kvhooks::date::format_local;
use kvhooks::date::parse_iso_date;
use kvhooks::date::Date;
use kvhooks::date::DateError;

#[test]
fn plain_date_parses() {
    assert_eq!(parse_iso_date("1990-02-14"), Ok(Date { year: 1990, month: 2, day: 14 }));
}

#[test]
fn impossible_february_day_rejected() {
    assert_eq!(parse_iso_date("1990-02-30"), Err(DateError::BadCalendarDate));
}

#[test]
fn day_31_in_30_day_month_rejected() {
    assert_eq!(parse_iso_date("2023-04-31"), Err(DateError::BadCalendarDate));
    assert_eq!(parse_iso_date("2023-05-31"), Ok(Date { year: 2023, month: 5, day: 31 }));
}

#[test]
fn leap_year_rules() {
    assert_eq!(parse_iso_date("2024-02-29"), Ok(Date { year: 2024, month: 2, day: 29 }));
    assert_eq!(parse_iso_date("2023-02-29"), Err(DateError::BadCalendarDate));
    assert_eq!(parse_iso_date("2000-02-29"), Ok(Date { year: 2000, month: 2, day: 29 }));
    assert_eq!(parse_iso_date("1900-02-29"), Err(DateError::BadCalendarDate));
}

#[test]
fn month_out_of_range_rejected() {
    assert_eq!(parse_iso_date("1990-13-01"), Err(DateError::BadMonth));
    assert_eq!(parse_iso_date("1990-00-01"), Err(DateError::BadMonth));
}

#[test]
fn day_out_of_range_rejected() {
    assert_eq!(parse_iso_date("1990-01-32"), Err(DateError::BadDay));
    assert_eq!(parse_iso_date("1990-01-00"), Err(DateError::BadDay));
}

#[test]
fn bad_shape_rejected() {
    assert_eq!(parse_iso_date("19900214"), Err(DateError::BadFormat));
    assert_eq!(parse_iso_date("1990/02/14"), Err(DateError::BadFormat));
    assert_eq!(parse_iso_date("1990-2-14"), Err(DateError::BadFormat));
    assert_eq!(parse_iso_date("1990-02-14 "), Err(DateError::BadFormat));
    assert_eq!(parse_iso_date(""), Err(DateError::BadFormat));
}

#[test]
fn renders_zero_padded() {
    let d = Date { year: 1990, month: 2, day: 14 };
    assert_eq!(format_iso(&d), "1990-02-14");
    assert_eq!(format_local(&d), "14/02/1990");
    let e = Date { year: 7, month: 11, day: 3 };
    assert_eq!(format_iso(&e), "0007-11-03");
    assert_eq!(format_local(&e), "03/11/0007");
}
