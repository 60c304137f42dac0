use vstd::prelude::*;
use vstd::string::StrSliceExecFns;
use vstd::string::StringExecFns;
use crate::ascii::ascii_of;

verus! {

/// True when `s` is a currency code: exactly three upper-case ASCII letters.
pub open spec fn valid_code_chars(s: Seq<char>) -> bool {
    s.len() == 3 && forall|i: int| 0 <= i < 3 ==> 'A' <= #[trigger] s[i] <= 'Z'
}

/// A three-letter currency code, one of the identifiers the rate service knows.
#[derive(Debug)]
pub struct CurrencyCode {
    letters: String,
}

impl Clone for CurrencyCode {
    fn clone(&self) -> (r: Self)
        ensures
            r@ == self@,
    {
        CurrencyCode { letters: self.letters.as_str().to_owned() }
    }
}

impl View for CurrencyCode {
    type V = Seq<char>;

    closed spec fn view(&self) -> Seq<char> {
        self.letters@
    }
}

impl CurrencyCode {
    /// Well-formedness: the stored text is a valid code.
    pub open spec fn wf(&self) -> bool {
        valid_code_chars(self@)
    }

    /// Builds a code from text, accepting exactly three upper-case ASCII letters.
    pub fn new(text: &str) -> (r: Option<CurrencyCode>)
        ensures
            r is Some <==> valid_code_chars(text@),
            r is Some ==> r.unwrap()@ == text@ && r.unwrap().wf(),
    {
        if !text.is_ascii() {
            proof {
                if valid_code_chars(text@) {
                    assert(forall|i: int|
                        0 <= i < text@.len() ==> '\0' <= #[trigger] text@[i] <= '\u{7f}');
                }
            }
            return None;
        }
        proof {
            vstd::string::is_ascii_spec_bytes(text);
        }
        let b: &[u8] = text.as_bytes();
        if b.len() != 3 {
            return None;
        }
        let mut i: usize = 0;
        while i < 3
            invariant
                i <= 3,
                b@.len() == 3,
                text@.len() == 3,
                forall|j: int| 0 <= j < 3 ==> b@[j] == #[trigger] text@[j] as u8,
                forall|j: int| 0 <= j < 3 ==> '\0' <= #[trigger] text@[j] <= '\u{7f}',
                forall|j: int| 0 <= j < i ==> 'A' <= #[trigger] text@[j] <= 'Z',
            decreases 3 - i,
        {
            let c = b[i];
            if c < 65 || c > 90 {
                proof {
                    assert(text@[i as int] as u8 == b@[i as int]);
                    assert(!('A' <= text@[i as int] <= 'Z'));
                }
                return None;
            }
            proof {
                assert(text@[i as int] as u8 == b@[i as int]);
                assert('A' <= text@[i as int] <= 'Z');
            }
            i += 1;
        }
        let code = CurrencyCode { letters: text.to_owned() };
        Some(code)
    }

    /// The code's letters as ASCII bytes, the form the wire responses use as keys.
    pub fn key_bytes(&self) -> (r: Vec<u8>)
        requires
            self.wf(),
        ensures
            r@ == ascii_of(self@),
    {
        proof {
            assert(forall|i: int|
                0 <= i < self@.len() ==> '\0' <= #[trigger] self@[i] <= '\u{7f}');
        }
        crate::ascii::ascii_bytes(self.letters.as_str())
    }

    /// The code's letters as text, the form the request URLs embed.
    pub fn as_str(&self) -> (r: &str)
        ensures
            r@ == self@,
    {
        self.letters.as_str()
    }
}

/// An ordered pair of currency codes: conversion from `base` into `target`.
#[derive(Debug)]
pub struct CurrencyPair {
    pub base: CurrencyCode,
    pub target: CurrencyCode,
}

impl Clone for CurrencyPair {
    fn clone(&self) -> (r: Self)
        ensures
            r.base@ == self.base@,
            r.target@ == self.target@,
    {
        CurrencyPair { base: self.base.clone(), target: self.target.clone() }
    }
}

impl CurrencyPair {
    /// Well-formedness: both codes are valid.
    pub open spec fn wf(&self) -> bool {
        self.base.wf() && self.target.wf()
    }

    /// The six-letter wire form, `base` followed by `target`.
    pub fn wire(&self) -> (r: String)
        ensures
            r@ == self.base@ + self.target@,
    {
        let mut s = String::new();
        s.append(self.base.as_str());
        s.append(self.target.as_str());
        proof {
            assert(s@ =~= self.base@ + self.target@);
        }
        s
    }

    /// Splits a six-letter wire form back into its two codes.
    pub fn from_wire(text: &str) -> (r: Option<CurrencyPair>)
        ensures
            r is Some <==> (text@.len() == 6 && valid_code_chars(text@.subrange(0, 3))
                && valid_code_chars(text@.subrange(3, 6))),
            r is Some ==> r.unwrap().wf() && r.unwrap().base@ == text@.subrange(0, 3)
                && r.unwrap().target@ == text@.subrange(3, 6),
    {
        if !text.is_ascii() {
            proof {
                if text@.len() == 6 && valid_code_chars(text@.subrange(0, 3))
                    && valid_code_chars(text@.subrange(3, 6)) {
                    assert forall|i: int|
                        0 <= i < text@.len() implies '\0' <= #[trigger] text@[i] <= '\u{7f}' by {
                        if i < 3 {
                            assert('A' <= text@.subrange(0, 3)[i] <= 'Z');
                        } else {
                            assert('A' <= text@.subrange(3, 6)[i - 3] <= 'Z');
                        }
                    }
                }
            }
            return None;
        }
        proof {
            vstd::string::is_ascii_spec_bytes(text);
        }
        if text.as_bytes().len() != 6 {
            return None;
        }
        let head = text.substring_ascii(0, 3);
        let tail = text.substring_ascii(3, 6);
        let base = CurrencyCode::new(head);
        let target = CurrencyCode::new(tail);
        match (base, target) {
            (Some(base), Some(target)) => Some(CurrencyPair { base, target }),
            _ => None,
        }
    }
}

} // verus!
