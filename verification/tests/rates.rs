use rorex::client::{extract_point_rate, latest_url, point_rate_outcome};
use rorex::currency::{CurrencyCode, CurrencyPair};

fn code(s: &str) -> CurrencyCode {
    CurrencyCode::new(s).expect("three upper-case letters")
}

fn pair(base: &str, target: &str) -> CurrencyPair {
    CurrencyPair { base: code(base), target: code(target) }
}

#[test]
fn point_rate_matches_reported_value() {
    let body = b"{\"conversion_rates\":{\"EUR\":0.92,\"GBP\":0.79,\"JPY\":151.4}}";
    let r = extract_point_rate(body, &code("EUR"));
    assert_eq!(r.unwrap(), b"0.92".to_vec());
    let r = extract_point_rate(body, &code("GBP"));
    assert_eq!(r.unwrap(), b"0.79".to_vec());
    let r = extract_point_rate(body, &code("JPY"));
    assert_eq!(r.unwrap(), b"151.4".to_vec());
}

#[test]
fn point_rate_parses_as_the_number_the_mock_reported() {
    let body = b"{\"conversion_rates\":{\"EUR\":0.92}}";
    let r = extract_point_rate(body, &code("EUR")).unwrap();
    let text = String::from_utf8(r).unwrap();
    let value: f64 = text.parse().unwrap();
    assert_eq!(value, 0.92);
}

#[test]
fn point_rate_ignores_other_members() {
    let body = b"{\"result\":\"success\",\"documentation\":\"https://example\",\
        \"conversion_rates\":{\"CHF\":0.88},\"extra\":[1,2,{\"x\":null}]}";
    let r = extract_point_rate(body, &code("CHF"));
    assert_eq!(r.unwrap(), b"0.88".to_vec());
}

#[test]
fn missing_target_is_pair_not_found() {
    let body = b"{\"conversion_rates\":{\"EUR\":0.92}}";
    let r = extract_point_rate(body, &code("GBP"));
    assert!(r.unwrap_err().is_pair_not_found());
}

#[test]
fn non_json_body_is_decode_error() {
    let body = b"service unavailable";
    let e = extract_point_rate(body, &code("EUR")).unwrap_err();
    assert!(!e.is_pair_not_found());
    assert_eq!(
        e.message().unwrap().as_str(),
        "could not decode the response body"
    );
}

#[test]
fn truncated_json_body_is_decode_error() {
    let body = b"{\"conversion_rates\":{\"EUR\":0.92}";
    let e = extract_point_rate(body, &code("EUR")).unwrap_err();
    assert!(!e.is_pair_not_found());
}

#[test]
fn missing_rates_member_is_decode_error() {
    let body = b"{\"result\":\"success\"}";
    let e = extract_point_rate(body, &code("EUR")).unwrap_err();
    assert!(!e.is_pair_not_found());
}

#[test]
fn transport_error_keeps_its_message() {
    let e = point_rate_outcome(Err("connection refused".to_string()), &code("EUR")).unwrap_err();
    assert_eq!(e.message().unwrap().as_str(), "connection refused");
}

#[test]
fn successful_transport_is_decoded() {
    let body = b"{\"conversion_rates\":{\"EUR\":0.92}}".to_vec();
    let r = point_rate_outcome(Ok(body), &code("EUR"));
    assert_eq!(r.unwrap(), b"0.92".to_vec());
}

#[test]
fn duplicate_rate_key_takes_the_later_value() {
    let body = b"{\"conversion_rates\":{\"EUR\":0.92,\"EUR\":0.93}}";
    let r = extract_point_rate(body, &code("EUR"));
    assert_eq!(r.unwrap(), b"0.93".to_vec());
}

#[test]
fn duplicate_rates_member_is_decode_error() {
    let body =
        b"{\"conversion_rates\":{\"EUR\":0.92},\"conversion_rates\":{\"EUR\":0.93}}";
    let e = extract_point_rate(body, &code("EUR")).unwrap_err();
    assert!(!e.is_pair_not_found());
}

#[test]
fn exponent_and_negative_rates_are_kept_verbatim() {
    let body = b"{\"conversion_rates\":{\"EUR\":1e3,\"GBP\":-0.5,\"JPY\":0}}";
    assert_eq!(extract_point_rate(body, &code("EUR")).unwrap(), b"1e3".to_vec());
    assert_eq!(extract_point_rate(body, &code("GBP")).unwrap(), b"-0.5".to_vec());
    assert_eq!(extract_point_rate(body, &code("JPY")).unwrap(), b"0".to_vec());
}

#[test]
fn leading_zero_rate_is_decode_error() {
    let body = b"{\"conversion_rates\":{\"EUR\":01}}";
    let e = extract_point_rate(body, &code("EUR")).unwrap_err();
    assert!(!e.is_pair_not_found());
}

#[test]
fn non_number_rate_is_decode_error() {
    let body = b"{\"conversion_rates\":{\"EUR\":\"0.92\"}}";
    let e = extract_point_rate(body, &code("EUR")).unwrap_err();
    assert!(!e.is_pair_not_found());
}

#[test]
fn latest_url_embeds_key_and_base() {
    let p = pair("USD", "EUR");
    let url = latest_url("demo-key", &p);
    assert_eq!(
        url,
        "https://v6.exchangerate-api.com/v6/demo-key/latest/USD"
    );
}

#[test]
fn currency_code_accepts_exactly_three_upper_case_letters() {
    assert!(CurrencyCode::new("USD").is_some());
    assert!(CurrencyCode::new("usd").is_none());
    assert!(CurrencyCode::new("US").is_none());
    assert!(CurrencyCode::new("USDE").is_none());
    assert!(CurrencyCode::new("U5D").is_none());
    assert!(CurrencyCode::new("€UR").is_none());
}

#[test]
fn pair_wire_round_trip() {
    let p = pair("USD", "EUR");
    let wire = p.wire();
    assert_eq!(wire, "USDEUR");
    let back = CurrencyPair::from_wire(&wire).unwrap();
    assert_eq!(back.base.as_str(), "USD");
    assert_eq!(back.target.as_str(), "EUR");
    assert!(CurrencyPair::from_wire("USDEU").is_none());
    assert!(CurrencyPair::from_wire("usdeur").is_none());
}
