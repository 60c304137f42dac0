use vstd::prelude::*;
use vstd::string::StringExecFns;

verus! {

/// A calendar date in the proleptic Gregorian calendar, the form the
/// history endpoint keys its per-day rates by.
///
/// Years are limited to 1 through 9999 so that the ISO form is always
/// four year digits.
#[derive(Clone, Copy, PartialEq, Eq, Structural, Debug)]
pub struct Date {
    pub year: i32,
    pub month: u8,
    pub day: u8,
}

impl View for Date {
    type V = Date;

    open spec fn view(&self) -> Date {
        *self
    }
}

impl DeepView for Date {
    type V = Date;

    open spec fn deep_view(&self) -> Date {
        *self
    }
}

/// True for leap years.
pub open spec fn is_leap_year(y: int) -> bool {
    (y % 4 == 0 && y % 100 != 0) || y % 400 == 0
}

/// The number of days in the given month of the given year.
pub open spec fn days_in_month(y: int, m: int) -> int {
    if m == 2 {
        if is_leap_year(y) {
            29
        } else {
            28
        }
    } else if m == 4 || m == 6 || m == 9 || m == 11 {
        30
    } else {
        31
    }
}

/// Strict chronological order on dates.
pub open spec fn date_lt(a: Date, b: Date) -> bool {
    a.year < b.year || (a.year == b.year && (a.month < b.month || (a.month == b.month
        && a.day < b.day)))
}

/// The day after `d`.
pub open spec fn spec_next(d: Date) -> Date {
    if d.day < days_in_month(d.year as int, d.month as int) {
        Date { year: d.year, month: d.month, day: (d.day + 1) as u8 }
    } else if d.month < 12 {
        Date { year: d.year, month: (d.month + 1) as u8, day: 1 }
    } else {
        Date { year: (d.year + 1) as i32, month: 1, day: 1 }
    }
}

/// The day before `d`.
pub open spec fn spec_prev(d: Date) -> Date {
    if d.day > 1 {
        Date { year: d.year, month: d.month, day: (d.day - 1) as u8 }
    } else if d.month > 1 {
        Date {
            year: d.year,
            month: (d.month - 1) as u8,
            day: days_in_month(d.year as int, d.month as int - 1) as u8,
        }
    } else {
        Date { year: (d.year - 1) as i32, month: 12, day: 31 }
    }
}

/// The date `n` days before `d`.
pub open spec fn spec_back(d: Date, n: nat) -> Date
    decreases n,
{
    if n == 0 {
        d
    } else {
        spec_back(spec_prev(d), (n - 1) as nat)
    }
}

/// The digit character for a value between 0 and 9.
pub open spec fn digit_char(v: int) -> char {
    ((48 + v) as u8) as char
}

/// The ISO form of a date: four year digits, two month digits and two
/// day digits, separated by hyphens.
pub open spec fn iso_chars(d: Date) -> Seq<char> {
    seq![
        digit_char(d.year as int / 1000 % 10),
        digit_char(d.year as int / 100 % 10),
        digit_char(d.year as int / 10 % 10),
        digit_char(d.year as int % 10),
        '-',
        digit_char(d.month as int / 10),
        digit_char(d.month as int % 10),
        '-',
        digit_char(d.day as int / 10),
        digit_char(d.day as int % 10),
    ]
}

/// Every character of an ISO date is ASCII.
pub proof fn lemma_iso_ascii(d: Date)
    requires
        d.wf(),
    ensures
        vstd::utf8::is_ascii_chars(iso_chars(d)),
{
    assert forall|i: int| 0 <= i < iso_chars(d).len() implies '\0' <= #[trigger] iso_chars(
        d,
    )[i] <= '\u{7f}' by {
        let c = iso_chars(d)[i];
        if i == 4 || i == 7 {
            assert(c == '-');
        } else {
            assert(exists|v: int| 0 <= v <= 9 && c == digit_char(v)) by {
                if i == 0 {
                    assert(c == digit_char(d.year as int / 1000 % 10));
                } else if i == 1 {
                    assert(c == digit_char(d.year as int / 100 % 10));
                } else if i == 2 {
                    assert(c == digit_char(d.year as int / 10 % 10));
                } else if i == 3 {
                    assert(c == digit_char(d.year as int % 10));
                } else if i == 5 {
                    assert(c == digit_char(d.month as int / 10));
                } else if i == 6 {
                    assert(c == digit_char(d.month as int % 10));
                } else if i == 8 {
                    assert(c == digit_char(d.day as int / 10));
                } else {
                    assert(c == digit_char(d.day as int % 10));
                }
            }
        }
    }
}

/// The exec counterpart of `days_in_month`.
fn month_len(y: i32, m: u8) -> (r: u8)
    requires
        1 <= y,
        1 <= m <= 12,
    ensures
        r as int == days_in_month(y as int, m as int),
{
    if m == 2 {
        if (y % 4 == 0 && y % 100 != 0) || y % 400 == 0 {
            29
        } else {
            28
        }
    } else if m == 4 || m == 6 || m == 9 || m == 11 {
        30
    } else {
        31
    }
}

impl Date {
    /// Well-formedness: a real calendar date with a four-digit year.
    pub open spec fn wf(&self) -> bool {
        1 <= self.year <= 9999 && 1 <= self.month <= 12 && 1 <= self.day
            && self.day as int <= days_in_month(self.year as int, self.month as int)
    }

    /// Builds a date, accepting exactly the well-formed triples.
    pub fn new(year: i32, month: u8, day: u8) -> (r: Option<Date>)
        ensures
            r is Some <==> (Date { year, month, day }).wf(),
            r is Some ==> r.unwrap() == (Date { year, month, day }),
    {
        if 1 <= year && year <= 9999 && 1 <= month && month <= 12 && 1 <= day && day <= month_len(
            year,
            month,
        ) {
            Some(Date { year, month, day })
        } else {
            None
        }
    }

    /// The day after `self`; the last supported day has no successor here.
    pub fn next(&self) -> (r: Date)
        requires
            self.wf(),
            !(self.year == 9999 && self.month == 12 && self.day == 31),
        ensures
            r == spec_next(*self),
            r.wf(),
            date_lt(*self, r),
    {
        if self.day < month_len(self.year, self.month) {
            Date { year: self.year, month: self.month, day: self.day + 1 }
        } else if self.month < 12 {
            Date { year: self.year, month: self.month + 1, day: 1 }
        } else {
            Date { year: self.year + 1, month: 1, day: 1 }
        }
    }

    /// The day before `self`; the first supported day has no predecessor here.
    pub fn prev(&self) -> (r: Date)
        requires
            self.wf(),
            !(self.year == 1 && self.month == 1 && self.day == 1),
        ensures
            r == spec_prev(*self),
            r.wf(),
            date_lt(r, *self),
    {
        if self.day > 1 {
            Date { year: self.year, month: self.month, day: self.day - 1 }
        } else if self.month > 1 {
            Date { year: self.year, month: self.month - 1, day: month_len(self.year, self.month - 1) }
        } else {
            Date { year: self.year - 1, month: 12, day: 31 }
        }
    }

    /// The date `n` days earlier. The caller leaves the first supported
    /// year out so that every step stays on a supported date.
    pub fn back_days(&self, n: u32) -> (r: Date)
        requires
            self.wf(),
            self.year >= 2,
            n <= 30,
        ensures
            r == spec_back(*self, n as nat),
            r.wf(),
    {
        let mut cur = *self;
        let mut i: u32 = 0;
        while i < n
            invariant
                i <= n,
                n <= 30,
                cur.wf(),
                cur == spec_back(*self, i as nat),
                cur.year >= 2 || (cur.month == 12 && cur.day as int >= 31 - i),
            decreases n - i,
        {
            proof {
                lemma_back_unfold(*self, (i + 1) as nat);
            }
            cur = cur.prev();
            i += 1;
        }
        cur
    }

    /// The ISO text form, `YYYY-MM-DD`.
    pub fn iso(&self) -> (r: String)
        requires
            self.wf(),
        ensures
            r@ == iso_chars(*self),
    {
        let y = self.year;
        let mut s = String::new();
        append_digit(&mut s, ((y / 1000) % 10) as u8);
        append_digit(&mut s, ((y / 100) % 10) as u8);
        append_digit(&mut s, ((y / 10) % 10) as u8);
        append_digit(&mut s, (y % 10) as u8);
        append_hyphen(&mut s);
        append_digit(&mut s, self.month / 10);
        append_digit(&mut s, self.month % 10);
        append_hyphen(&mut s);
        append_digit(&mut s, self.day / 10);
        append_digit(&mut s, self.day % 10);
        proof {
            assert(s@ =~= iso_chars(*self));
        }
        s
    }

    /// The ISO text form as ASCII bytes, the key shape of the history response.
    pub fn iso_bytes(&self) -> (r: Vec<u8>)
        requires
            self.wf(),
        ensures
            r@ == crate::ascii::ascii_of(iso_chars(*self)),
    {
        let s = self.iso();
        proof {
            lemma_iso_ascii(*self);
        }
        crate::ascii::ascii_bytes(s.as_str())
    }
}

/// Unfolds `spec_back` by one step at the outside.
pub proof fn lemma_back_unfold(d: Date, n: nat)
    requires
        n >= 1,
    ensures
        spec_back(d, n) == spec_prev(spec_back(d, (n - 1) as nat)),
    decreases n,
{
    if n == 1 {
        assert(spec_back(d, 1) == spec_back(spec_prev(d), 0));
        assert(spec_back(d, 0) == d);
    } else {
        lemma_back_unfold(spec_prev(d), (n - 1) as nat);
        assert(spec_back(d, n) == spec_back(spec_prev(d), (n - 1) as nat));
        assert(spec_back(d, (n - 1) as nat) == spec_back(spec_prev(d), (n - 2) as nat));
    }
}

/// Appends one digit character.
fn append_digit(s: &mut String, v: u8)
    requires
        v < 10,
    ensures
        final(s)@ == old(s)@ + seq![digit_char(v as int)],
{
    let piece: &str = match v {
        0 => "0",
        1 => "1",
        2 => "2",
        3 => "3",
        4 => "4",
        5 => "5",
        6 => "6",
        7 => "7",
        8 => "8",
        _ => "9",
    };
    proof {
        reveal_strlit("0");
        reveal_strlit("1");
        reveal_strlit("2");
        reveal_strlit("3");
        reveal_strlit("4");
        reveal_strlit("5");
        reveal_strlit("6");
        reveal_strlit("7");
        reveal_strlit("8");
        reveal_strlit("9");
        assert(piece@ =~= seq![digit_char(v as int)]);
    }
    s.append(piece);
}

/// Appends the hyphen that separates the ISO fields.
fn append_hyphen(s: &mut String)
    ensures
        final(s)@ == old(s)@ + seq!['-'],
{
    proof {
        reveal_strlit("-");
        assert("-"@ =~= seq!['-']);
    }
    s.append("-");
}

} // verus!
