use htcrawler::dates::{parse_date, CalendarDate, DateFormatError};

fn date(year: u32, month: u32, day: u32) -> CalendarDate {
    CalendarDate { year, month, day }
}

#[test]
fn embedded_phrase_yields_calendar_date() {
    let r = parse_date("Menu du mardi 19 mars 2024 au restaurant");
    assert_eq!(r, Ok(date(2024, 3, 19)));
}

#[test]
fn plain_day_month_year() {
    assert_eq!(parse_date("19 mars 2024"), Ok(date(2024, 3, 19)));
    assert_eq!(parse_date("1 janvier 2000"), Ok(date(2000, 1, 1)));
    assert_eq!(parse_date("31 décembre 1999"), Ok(date(1999, 12, 31)));
    assert_eq!(parse_date("15 août 2023"), Ok(date(2023, 8, 15)));
    assert_eq!(parse_date("2 février 2021"), Ok(date(2021, 2, 2)));
    assert_eq!(parse_date("30 avril 2022"), Ok(date(2022, 4, 30)));
    assert_eq!(parse_date("31 mai 2022"), Ok(date(2022, 5, 31)));
    assert_eq!(parse_date("30 juin 2022"), Ok(date(2022, 6, 30)));
    assert_eq!(parse_date("14 juillet 2022"), Ok(date(2022, 7, 14)));
    assert_eq!(parse_date("30 septembre 2022"), Ok(date(2022, 9, 30)));
    assert_eq!(parse_date("31 octobre 2022"), Ok(date(2022, 10, 31)));
    assert_eq!(parse_date("30 novembre 2022"), Ok(date(2022, 11, 30)));
}

#[test]
fn first_month_token_decides() {
    assert_eq!(
        parse_date("lundi 19 mars 2024 puis 20 avril 2025"),
        Ok(date(2024, 3, 19))
    );
}

#[test]
fn no_break_spaces_delimit_tokens_too() {
    assert_eq!(parse_date("19\u{a0}mars\u{a0}2024"), Ok(date(2024, 3, 19)));
    // The narrow no-break space is common in French typography.
    assert_eq!(parse_date("19\u{202f}mars 2024"), Ok(date(2024, 3, 19)));
}

#[test]
fn no_month_token_is_rejected() {
    assert_eq!(parse_date("no date here"), Err(DateFormatError));
    assert_eq!(parse_date(""), Err(DateFormatError));
}

#[test]
fn month_at_edge_is_rejected() {
    // month token first: no left neighbour
    assert_eq!(parse_date("mars 2024"), Err(DateFormatError));
    // month token last: no right neighbour
    assert_eq!(parse_date("19 mars"), Err(DateFormatError));
    // lone month token
    assert_eq!(parse_date("mars"), Err(DateFormatError));
}

#[test]
fn non_numeric_neighbours_are_rejected() {
    assert_eq!(parse_date("le mars 2024"), Err(DateFormatError));
    assert_eq!(parse_date("19 mars prochain"), Err(DateFormatError));
    assert_eq!(parse_date("19e mars 2024"), Err(DateFormatError));
}

#[test]
fn huge_numbers_are_rejected() {
    assert_eq!(parse_date("99999999999 mars 2024"), Err(DateFormatError));
}

#[test]
fn impossible_calendar_dates_are_rejected() {
    assert_eq!(parse_date("32 mars 2024"), Err(DateFormatError));
    assert_eq!(parse_date("0 mars 2024"), Err(DateFormatError));
    assert_eq!(parse_date("31 avril 2024"), Err(DateFormatError));
}

#[test]
fn leap_years_are_respected() {
    assert_eq!(parse_date("29 février 2024"), Ok(date(2024, 2, 29)));
    assert_eq!(parse_date("29 février 2023"), Err(DateFormatError));
    assert_eq!(parse_date("29 février 1900"), Err(DateFormatError));
    assert_eq!(parse_date("29 février 2000"), Ok(date(2000, 2, 29)));
}
