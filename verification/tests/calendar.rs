use rorex::clock::today_date;
use rorex::date::Date;

#[test]
fn rejects_impossible_dates() {
    assert!(Date::new(2024, 2, 30).is_none());
    assert!(Date::new(2023, 2, 29).is_none());
    assert!(Date::new(2024, 2, 29).is_some());
    assert!(Date::new(2024, 13, 1).is_none());
    assert!(Date::new(2024, 0, 1).is_none());
    assert!(Date::new(2024, 4, 31).is_none());
    assert!(Date::new(0, 1, 1).is_none());
    assert!(Date::new(10000, 1, 1).is_none());
}

#[test]
fn century_years_follow_the_gregorian_leap_rule() {
    assert!(Date::new(1900, 2, 29).is_none());
    assert!(Date::new(2000, 2, 29).is_some());
    assert!(Date::new(2100, 2, 29).is_none());
}

#[test]
fn next_and_prev_step_over_month_and_year_ends() {
    let d = Date::new(2024, 2, 28).unwrap().next();
    assert_eq!((d.year, d.month, d.day), (2024, 2, 29));
    let d = d.next();
    assert_eq!((d.year, d.month, d.day), (2024, 3, 1));
    let d = Date::new(2023, 12, 31).unwrap().next();
    assert_eq!((d.year, d.month, d.day), (2024, 1, 1));
    let d = Date::new(2024, 1, 1).unwrap().prev();
    assert_eq!((d.year, d.month, d.day), (2023, 12, 31));
    let d = Date::new(2024, 3, 1).unwrap().prev();
    assert_eq!((d.year, d.month, d.day), (2024, 2, 29));
}

#[test]
fn thirty_days_back_from_month_end() {
    let d = Date::new(2024, 3, 15).unwrap().back_days(30);
    assert_eq!((d.year, d.month, d.day), (2024, 2, 14));
    let d = Date::new(2024, 1, 31).unwrap().back_days(30);
    assert_eq!((d.year, d.month, d.day), (2024, 1, 1));
    let d = Date::new(2024, 1, 15).unwrap().back_days(30);
    assert_eq!((d.year, d.month, d.day), (2023, 12, 16));
}

#[test]
fn iso_form_pads_every_field() {
    assert_eq!(Date::new(2024, 3, 9).unwrap().iso(), "2024-03-09");
    assert_eq!(Date::new(987, 12, 31).unwrap().iso(), "0987-12-31");
    assert_eq!(Date::new(2026, 10, 12).unwrap().iso(), "2026-10-12");
    assert_eq!(
        Date::new(2024, 3, 9).unwrap().iso_bytes(),
        b"2024-03-09".to_vec()
    );
}

#[test]
fn the_clock_yields_a_supported_day() {
    let today = today_date().expect("the clock lies in the supported range");
    assert!(today.year >= 2024);
    assert!((1..=12).contains(&today.month));
    assert!((1..=31).contains(&today.day));
}
