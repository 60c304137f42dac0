use rorex::currency::{CurrencyCode, CurrencyPair};
use rorex::date::Date;
use rorex::history::HistoryFetch;

fn pair(base: &str, target: &str) -> CurrencyPair {
    CurrencyPair {
        base: CurrencyCode::new(base).expect("three upper-case letters"),
        target: CurrencyCode::new(target).expect("three upper-case letters"),
    }
}

fn january_day(day: u8) -> Date {
    Date::new(2024, 1, day).expect("a January day")
}

/// A history body holding one EUR rate per given January 2024 day.
fn january_body(days: &[u8]) -> Vec<u8> {
    let mut members = Vec::new();
    for &d in days {
        members.push(format!("\"2024-01-{:02}\":{{\"EUR\":1.{:02}}}", d, d));
    }
    format!("{{\"rates\":{{{}}}}}", members.join(",")).into_bytes()
}

#[test]
fn window_is_the_31_days_ending_today() {
    let fetch = HistoryFetch::new("demo-key", &pair("USD", "EUR"), january_day(31));
    assert_eq!(fetch.days.len(), 31);
    for (i, d) in fetch.days.iter().enumerate() {
        assert_eq!((d.year, d.month, d.day), (2024, 1, (i + 1) as u8));
    }
    assert_eq!(
        fetch.url,
        "https://v6.exchangerate-api.com/v6/demo-key/history/USD/EUR\
         ?start_date=2024-01-01&end_date=2024-01-31"
    );
}

#[test]
fn window_crosses_a_month_boundary() {
    let today = Date::new(2024, 3, 15).unwrap();
    let fetch = HistoryFetch::new("k", &pair("USD", "EUR"), today);
    let first = fetch.days[0];
    assert_eq!((first.year, first.month, first.day), (2024, 2, 14));
    let last = fetch.days[30];
    assert_eq!((last.year, last.month, last.day), (2024, 3, 15));
}

#[test]
fn five_missing_days_yield_twenty_six_samples_in_order() {
    let mut present = Vec::new();
    for d in 1..=31u8 {
        if d != 5 && d != 10 && d != 15 && d != 20 && d != 25 {
            present.push(d);
        }
    }
    let body = january_body(&present);
    let mut fetch = HistoryFetch::new("k", &pair("USD", "EUR"), january_day(31));
    while fetch.in_progress() {
        fetch.step(Ok(body.clone()));
    }
    let samples = fetch.finish().unwrap();
    assert_eq!(samples.len(), 26);
    for (i, (date, rate)) in samples.iter().enumerate() {
        let day = present[i];
        assert_eq!((date.year, date.month, date.day), (2024, 1, day));
        assert_eq!(rate, &format!("1.{:02}", day).into_bytes());
        if i > 0 {
            assert!(samples[i - 1].0.day < date.day);
        }
    }
}

#[test]
fn transport_failure_mid_window_discards_every_sample() {
    let body = january_body(&(1..=31u8).collect::<Vec<u8>>());
    let mut fetch = HistoryFetch::new("k", &pair("USD", "EUR"), january_day(31));
    for _ in 0..14 {
        fetch.step(Ok(body.clone()));
    }
    assert_eq!(fetch.samples.len(), 14);
    fetch.step(Err("connection reset".to_string()));
    assert!(!fetch.in_progress());
    let e = fetch.finish().unwrap_err();
    assert_eq!(e.message().unwrap().as_str(), "connection reset");
}

#[test]
fn refused_body_mid_window_aborts_the_fetch() {
    let body = january_body(&[1, 2, 3]);
    let mut fetch = HistoryFetch::new("k", &pair("USD", "EUR"), january_day(31));
    fetch.step(Ok(body));
    fetch.step(Ok(b"<html>oops</html>".to_vec()));
    assert!(!fetch.in_progress());
    let e = fetch.finish().unwrap_err();
    assert_eq!(
        e.message().unwrap().as_str(),
        "could not decode the response body"
    );
}

#[test]
fn day_without_target_code_is_skipped_silently() {
    let body =
        b"{\"rates\":{\"2024-01-31\":{\"GBP\":0.79}}}".to_vec();
    let mut fetch = HistoryFetch::new("k", &pair("USD", "EUR"), january_day(31));
    while fetch.in_progress() {
        fetch.step(Ok(body.clone()));
    }
    let samples = fetch.finish().unwrap();
    assert_eq!(samples.len(), 0);
}
