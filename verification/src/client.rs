use vstd::prelude::*;
use vstd::string::StringExecFns;
use crate::ascii::ascii_of;
use crate::currency::{CurrencyCode, CurrencyPair};
use crate::json::{map_get_last, spec_point_response};

verus! {

/// Why a fetch produced no rate.
#[derive(Debug)]
pub enum ErrorKind {
    /// The transport failed or the body could not be decoded; carries the
    /// underlying message.
    NetworkOrDecode(String),
    /// The response was well formed but its rates miss the requested
    /// currency code.
    PairNotFound,
}

impl ErrorKind {
    /// True for the missing-pair error.
    pub fn is_pair_not_found(&self) -> (r: bool)
        ensures
            r == (self is PairNotFound),
    {
        match self {
            ErrorKind::PairNotFound => true,
            ErrorKind::NetworkOrDecode(_) => false,
        }
    }

    /// The carried message of a transport-or-decode error.
    pub fn message(&self) -> (r: Option<&String>)
        ensures
            match r {
                Some(m) => self matches ErrorKind::NetworkOrDecode(t) && t == m,
                None => self is PairNotFound,
            },
    {
        match self {
            ErrorKind::NetworkOrDecode(m) => Some(m),
            ErrorKind::PairNotFound => None,
        }
    }
}

/// The message of the error a refused body produces.
pub open spec fn decode_error_message() -> Seq<char> {
    "could not decode the response body"@
}

/// The exec counterpart of `decode_error_message`.
pub(crate) fn decode_error_text() -> (r: String)
    ensures
        r@ == decode_error_message(),
{
    "could not decode the response body".to_owned()
}

/// The request URL for the latest rates of a base currency.
pub open spec fn latest_url_chars(api_key: Seq<char>, base: Seq<char>) -> Seq<char> {
    "https://v6.exchangerate-api.com/v6/"@ + api_key + "/latest/"@ + base
}

/// Builds the latest-rates URL: the fixed template with the API key and
/// the pair's base code embedded.
pub fn latest_url(api_key: &str, pair: &CurrencyPair) -> (r: String)
    ensures
        r@ == latest_url_chars(api_key@, pair.base@),
{
    let mut s = String::new();
    s.append("https://v6.exchangerate-api.com/v6/");
    s.append(api_key);
    s.append("/latest/");
    s.append(pair.base.as_str());
    proof {
        assert(s@ =~= latest_url_chars(api_key@, pair.base@));
    }
    s
}

/// The request URL for the history of a pair over a date range.
pub open spec fn history_url_chars(
    api_key: Seq<char>,
    base: Seq<char>,
    target: Seq<char>,
    start_iso: Seq<char>,
    end_iso: Seq<char>,
) -> Seq<char> {
    "https://v6.exchangerate-api.com/v6/"@ + api_key + "/history/"@ + base + "/"@ + target
        + "?start_date="@ + start_iso + "&end_date="@ + end_iso
}

/// Builds the history URL: the fixed template with the API key, the two
/// codes and the two range dates embedded.
pub fn history_url(api_key: &str, pair: &CurrencyPair, start_iso: &str, end_iso: &str) -> (r:
    String)
    ensures
        r@ == history_url_chars(api_key@, pair.base@, pair.target@, start_iso@, end_iso@),
{
    let mut s = String::new();
    s.append("https://v6.exchangerate-api.com/v6/");
    s.append(api_key);
    s.append("/history/");
    s.append(pair.base.as_str());
    s.append("/");
    s.append(pair.target.as_str());
    s.append("?start_date=");
    s.append(start_iso);
    s.append("&end_date=");
    s.append(end_iso);
    proof {
        assert(s@ =~= history_url_chars(api_key@, pair.base@, pair.target@, start_iso@, end_iso@));
    }
    s
}

/// Decodes a latest-rates body and looks the target code up in its
/// `conversion_rates` member. The result is the raw number text of the
/// rate; a body the decoding refuses is the decode error, and a decoded
/// body without the target code is `PairNotFound`.
pub fn extract_point_rate(body: &[u8], target: &CurrencyCode) -> (r: Result<Vec<u8>, ErrorKind>)
    requires
        target.wf(),
    ensures
        match spec_point_response(body@) {
            None => r matches Err(ErrorKind::NetworkOrDecode(m)) && m@ == decode_error_message(),
            Some(rates) => match map_get_last(rates, ascii_of(target@)) {
                Some(v) => r matches Ok(t) && t@ == v,
                None => r matches Err(e) && e is PairNotFound,
            },
        },
{
    match crate::json::parse_point_response(body) {
        None => Err(ErrorKind::NetworkOrDecode(decode_error_text())),
        Some(m) => {
            let key = target.key_bytes();
            match crate::json::find_last(&m, key.as_slice()) {
                Some(idx) => {
                    let v = vstd::slice::slice_to_vec(m[idx].1.as_slice());
                    proof {
                        assert(m.deep_view()[idx as int] == m@[idx as int].deep_view());
                        assert(v@ =~= m.deep_view()[idx as int].1);
                    }
                    Ok(v)
                },
                None => Err(ErrorKind::PairNotFound),
            }
        },
    }
}

/// Turns a transport outcome into the fetched rate for `target`: a
/// transport error is passed through as the network error with its
/// message; a body is decoded and looked up by `extract_point_rate`.
pub fn point_rate_outcome(response: Result<Vec<u8>, String>, target: &CurrencyCode) -> (r: Result<
    Vec<u8>,
    ErrorKind,
>)
    requires
        target.wf(),
    ensures
        match response {
            Err(msg) => r matches Err(ErrorKind::NetworkOrDecode(m)) && m@ == msg@,
            Ok(body) => match spec_point_response(body@) {
                None => r matches Err(ErrorKind::NetworkOrDecode(m)) && m@
                    == decode_error_message(),
                Some(rates) => match map_get_last(rates, ascii_of(target@)) {
                    Some(v) => r matches Ok(t) && t@ == v,
                    None => r matches Err(e) && e is PairNotFound,
                },
            },
        },
{
    match response {
        Err(msg) => Err(ErrorKind::NetworkOrDecode(msg)),
        Ok(body) => extract_point_rate(body.as_slice(), target),
    }
}

} // verus!
