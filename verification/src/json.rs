use vstd::prelude::*;

verus! {

/// True for the white-space bytes the grammar allows between tokens.
pub open spec fn is_ws(b: u8) -> bool {
    b == 32 || b == 9 || b == 10 || b == 13
}

/// True for a decimal digit byte.
pub open spec fn is_digit(b: u8) -> bool {
    48 <= b <= 57
}

/// The first index at or after `i` that does not hold white space.
pub open spec fn spec_skip_ws(s: Seq<u8>, i: int) -> int
    decreases s.len() - i when 0 <= i <= s.len()
{
    if i < s.len() && is_ws(s[i]) {
        spec_skip_ws(s, i + 1)
    } else {
        i
    }
}

/// The end of the run of digits that starts at `i`.
pub open spec fn spec_digits_end(s: Seq<u8>, i: int) -> int
    decreases s.len() - i when 0 <= i <= s.len()
{
    if i < s.len() && is_digit(s[i]) {
        spec_digits_end(s, i + 1)
    } else {
        i
    }
}

/// Scans a string token from just after its opening quote; the result is
/// the index just after the closing quote. A backslash protects the byte
/// after it; the bytes in between are the token's raw content.
pub open spec fn spec_scan_string(s: Seq<u8>, i: int) -> Option<int>
    decreases s.len() - i when 0 <= i <= s.len()
{
    if i >= s.len() {
        None
    } else if s[i] == 34 {
        Some(i + 1)
    } else if s[i] == 92 {
        if i + 1 < s.len() {
            spec_scan_string(s, i + 2)
        } else {
            None
        }
    } else {
        spec_scan_string(s, i + 1)
    }
}

/// Scans a number token that starts at `i`: an optional minus sign, an
/// integer part without leading zeroes, an optional fraction and an
/// optional exponent. The result is the index just after the token.
pub open spec fn spec_scan_number(s: Seq<u8>, i: int) -> Option<int> {
    let j0 = if i < s.len() && s[i] == 45 {
        i + 1
    } else {
        i
    };
    if j0 < s.len() && is_digit(s[j0]) {
        let j1 = if s[j0] == 48 {
            j0 + 1
        } else {
            spec_digits_end(s, j0)
        };
        let j2 = if j1 < s.len() && s[j1] == 46 {
            if j1 + 1 < s.len() && is_digit(s[j1 + 1]) {
                spec_digits_end(s, j1 + 1)
            } else {
                -1
            }
        } else {
            j1
        };
        if j2 < 0 {
            None
        } else {
            let j3 = if j2 < s.len() && (s[j2] == 101 || s[j2] == 69) {
                let je = if j2 + 1 < s.len() && (s[j2 + 1] == 43 || s[j2 + 1] == 45) {
                    j2 + 2
                } else {
                    j2 + 1
                };
                if je < s.len() && is_digit(s[je]) {
                    spec_digits_end(s, je)
                } else {
                    -1
                }
            } else {
                j2
            };
            if j3 < 0 {
                None
            } else {
                Some(j3)
            }
        }
    } else {
        None
    }
}

/// `spec_digits_end` stays within the input.
pub proof fn lemma_digits_end_bounds(s: Seq<u8>, i: int)
    requires
        0 <= i <= s.len(),
    ensures
        i <= spec_digits_end(s, i) <= s.len(),
    decreases s.len() - i,
{
    if i < s.len() && is_digit(s[i]) {
        lemma_digits_end_bounds(s, i + 1);
    }
}

/// The exec counterpart of `spec_skip_ws`.
pub fn skip_ws(s: &[u8], i: usize) -> (r: usize)
    requires
        i <= s@.len(),
    ensures
        r as int == spec_skip_ws(s@, i as int),
        i <= r <= s@.len(),
{
    let mut j: usize = i;
    while j < s.len() && (s[j] == 32 || s[j] == 9 || s[j] == 10 || s[j] == 13)
        invariant
            i <= j <= s@.len(),
            spec_skip_ws(s@, i as int) == spec_skip_ws(s@, j as int),
        decreases s@.len() - j,
    {
        j += 1;
    }
    j
}

/// The exec counterpart of `spec_digits_end`.
pub fn digits_end(s: &[u8], i: usize) -> (r: usize)
    requires
        i <= s@.len(),
    ensures
        r as int == spec_digits_end(s@, i as int),
        i <= r <= s@.len(),
{
    let mut j: usize = i;
    while j < s.len() && 48 <= s[j] && s[j] <= 57
        invariant
            i <= j <= s@.len(),
            spec_digits_end(s@, i as int) == spec_digits_end(s@, j as int),
        decreases s@.len() - j,
    {
        j += 1;
    }
    j
}

/// The exec counterpart of `spec_scan_string`.
pub fn scan_string(s: &[u8], i: usize) -> (r: Option<usize>)
    requires
        i <= s@.len(),
    ensures
        match r {
            Some(j) => spec_scan_string(s@, i as int) == Some(j as int) && i < j <= s@.len(),
            None => spec_scan_string(s@, i as int) is None,
        },
{
    let mut j: usize = i;
    loop
        invariant
            i <= j <= s@.len(),
            spec_scan_string(s@, i as int) == spec_scan_string(s@, j as int),
        decreases s@.len() - j,
    {
        if j >= s.len() {
            return None;
        }
        let b = s[j];
        if b == 34 {
            return Some(j + 1);
        }
        if b == 92 {
            if j + 1 < s.len() {
                j += 2;
            } else {
                return None;
            }
        } else {
            j += 1;
        }
    }
}

/// The exec counterpart of `spec_scan_number`.
pub fn scan_number(s: &[u8], i: usize) -> (r: Option<usize>)
    requires
        i <= s@.len(),
    ensures
        match r {
            Some(j) => spec_scan_number(s@, i as int) == Some(j as int) && i < j <= s@.len(),
            None => spec_scan_number(s@, i as int) is None,
        },
{
    let j0: usize = if i < s.len() && s[i] == 45 {
        i + 1
    } else {
        i
    };
    if !(j0 < s.len() && 48 <= s[j0] && s[j0] <= 57) {
        return None;
    }
    let j1: usize = if s[j0] == 48 {
        j0 + 1
    } else {
        proof {
            assert(spec_digits_end(s@, j0 as int) == spec_digits_end(s@, j0 as int + 1));
            lemma_digits_end_bounds(s@, j0 as int + 1);
        }
        digits_end(s, j0)
    };
    assert(j0 < j1);
    let j2: usize = if j1 < s.len() && s[j1] == 46 {
        if j1 + 1 < s.len() && 48 <= s[j1 + 1] && s[j1 + 1] <= 57 {
            digits_end(s, j1 + 1)
        } else {
            return None;
        }
    } else {
        j1
    };
    let j3: usize = if j2 < s.len() && (s[j2] == 101 || s[j2] == 69) {
        let je: usize = if j2 + 1 < s.len() && (s[j2 + 1] == 43 || s[j2 + 1] == 45) {
            j2 + 2
        } else {
            j2 + 1
        };
        if je < s.len() && 48 <= s[je] && s[je] <= 57 {
            digits_end(s, je)
        } else {
            return None;
        }
    } else {
        j2
    };
    Some(j3)
}

/// Scans any value that starts at `i`: an object, an array, a string, a
/// number, or one of the three literal words. The result is the index
/// just after the value. `fuel` bounds the recursion; the input's length
/// is always enough.
pub open spec fn spec_skip_value(s: Seq<u8>, i: int, fuel: nat) -> Option<int>
    decreases fuel, 1int,
{
    if i < 0 || i >= s.len() {
        None
    } else if s[i] == 34 {
        spec_scan_string(s, i + 1)
    } else if s[i] == 123 {
        let j = spec_skip_ws(s, i + 1);
        if j < s.len() && s[j] == 125 {
            Some(j + 1)
        } else if fuel == 0 {
            None
        } else {
            spec_skip_member_list(s, i + 1, (fuel - 1) as nat)
        }
    } else if s[i] == 91 {
        let j = spec_skip_ws(s, i + 1);
        if j < s.len() && s[j] == 93 {
            Some(j + 1)
        } else if fuel == 0 {
            None
        } else {
            spec_skip_elem_list(s, i + 1, (fuel - 1) as nat)
        }
    } else if s[i] == 116 {
        if i + 4 <= s.len() && s[i + 1] == 114 && s[i + 2] == 117 && s[i + 3] == 101 {
            Some(i + 4)
        } else {
            None
        }
    } else if s[i] == 102 {
        if i + 5 <= s.len() && s[i + 1] == 97 && s[i + 2] == 108 && s[i + 3] == 115 && s[i + 4]
            == 101 {
            Some(i + 5)
        } else {
            None
        }
    } else if s[i] == 110 {
        if i + 4 <= s.len() && s[i + 1] == 117 && s[i + 2] == 108 && s[i + 3] == 108 {
            Some(i + 4)
        } else {
            None
        }
    } else if s[i] == 45 || is_digit(s[i]) {
        spec_scan_number(s, i)
    } else {
        None
    }
}

/// Scans the members of an object from just after its opening brace,
/// through the closing brace. The object must have at least one member.
pub open spec fn spec_skip_member_list(s: Seq<u8>, i: int, fuel: nat) -> Option<int>
    decreases fuel, 0int,
{
    if fuel == 0 || i < 0 {
        None
    } else {
        let j = spec_skip_ws(s, i);
        if j < s.len() && s[j] == 34 {
            match spec_scan_string(s, j + 1) {
                None => None,
                Some(k) => {
                    let k2 = spec_skip_ws(s, k);
                    if k2 < s.len() && s[k2] == 58 {
                        let k3 = spec_skip_ws(s, k2 + 1);
                        match spec_skip_value(s, k3, (fuel - 1) as nat) {
                            None => None,
                            Some(m) => {
                                let m2 = spec_skip_ws(s, m);
                                if m2 < s.len() && s[m2] == 44 {
                                    spec_skip_member_list(s, m2 + 1, (fuel - 1) as nat)
                                } else if m2 < s.len() && s[m2] == 125 {
                                    Some(m2 + 1)
                                } else {
                                    None
                                }
                            },
                        }
                    } else {
                        None
                    }
                },
            }
        } else {
            None
        }
    }
}

/// Scans the elements of an array from just after its opening bracket,
/// through the closing bracket. The array must have at least one element.
pub open spec fn spec_skip_elem_list(s: Seq<u8>, i: int, fuel: nat) -> Option<int>
    decreases fuel, 0int,
{
    if fuel == 0 || i < 0 {
        None
    } else {
        let j = spec_skip_ws(s, i);
        match spec_skip_value(s, j, (fuel - 1) as nat) {
            None => None,
            Some(m) => {
                let m2 = spec_skip_ws(s, m);
                if m2 < s.len() && s[m2] == 44 {
                    spec_skip_elem_list(s, m2 + 1, (fuel - 1) as nat)
                } else if m2 < s.len() && s[m2] == 93 {
                    Some(m2 + 1)
                } else {
                    None
                }
            },
        }
    }
}

/// The exec counterpart of `spec_skip_value`.
pub fn skip_value(s: &[u8], i: usize, fuel: usize) -> (r: Option<usize>)
    requires
        i <= s@.len(),
    ensures
        match r {
            Some(j) => spec_skip_value(s@, i as int, fuel as nat) == Some(j as int) && i < j
                <= s@.len(),
            None => spec_skip_value(s@, i as int, fuel as nat) is None,
        },
    decreases fuel, 1int,
{
    if i >= s.len() {
        return None;
    }
    let b = s[i];
    if b == 34 {
        scan_string(s, i + 1)
    } else if b == 123 {
        let j = skip_ws(s, i + 1);
        if j < s.len() && s[j] == 125 {
            Some(j + 1)
        } else if fuel == 0 {
            None
        } else {
            skip_member_list(s, i + 1, fuel - 1)
        }
    } else if b == 91 {
        let j = skip_ws(s, i + 1);
        if j < s.len() && s[j] == 93 {
            Some(j + 1)
        } else if fuel == 0 {
            None
        } else {
            skip_elem_list(s, i + 1, fuel - 1)
        }
    } else if b == 116 {
        if s.len() - i >= 4 && s[i + 1] == 114 && s[i + 2] == 117 && s[i + 3] == 101 {
            Some(i + 4)
        } else {
            None
        }
    } else if b == 102 {
        if s.len() - i >= 5 && s[i + 1] == 97 && s[i + 2] == 108 && s[i + 3] == 115 && s[i + 4]
            == 101 {
            Some(i + 5)
        } else {
            None
        }
    } else if b == 110 {
        if s.len() - i >= 4 && s[i + 1] == 117 && s[i + 2] == 108 && s[i + 3] == 108 {
            Some(i + 4)
        } else {
            None
        }
    } else if b == 45 || (48 <= b && b <= 57) {
        scan_number(s, i)
    } else {
        None
    }
}

/// The exec counterpart of `spec_skip_member_list`.
pub fn skip_member_list(s: &[u8], i: usize, fuel: usize) -> (r: Option<usize>)
    requires
        i <= s@.len(),
    ensures
        match r {
            Some(j) => spec_skip_member_list(s@, i as int, fuel as nat) == Some(j as int) && i < j
                <= s@.len(),
            None => spec_skip_member_list(s@, i as int, fuel as nat) is None,
        },
    decreases fuel, 0int,
{
    if fuel == 0 {
        return None;
    }
    let j = skip_ws(s, i);
    if !(j < s.len() && s[j] == 34) {
        return None;
    }
    match scan_string(s, j + 1) {
        None => None,
        Some(k) => {
            let k2 = skip_ws(s, k);
            if !(k2 < s.len() && s[k2] == 58) {
                return None;
            }
            let k3 = skip_ws(s, k2 + 1);
            match skip_value(s, k3, fuel - 1) {
                None => None,
                Some(m) => {
                    let m2 = skip_ws(s, m);
                    if m2 < s.len() && s[m2] == 44 {
                        skip_member_list(s, m2 + 1, fuel - 1)
                    } else if m2 < s.len() && s[m2] == 125 {
                        Some(m2 + 1)
                    } else {
                        None
                    }
                },
            }
        },
    }
}

/// The exec counterpart of `spec_skip_elem_list`.
pub fn skip_elem_list(s: &[u8], i: usize, fuel: usize) -> (r: Option<usize>)
    requires
        i <= s@.len(),
    ensures
        match r {
            Some(j) => spec_skip_elem_list(s@, i as int, fuel as nat) == Some(j as int) && i <= j
                <= s@.len(),
            None => spec_skip_elem_list(s@, i as int, fuel as nat) is None,
        },
    decreases fuel, 0int,
{
    if fuel == 0 {
        return None;
    }
    let j = skip_ws(s, i);
    match skip_value(s, j, fuel - 1) {
        None => None,
        Some(m) => {
            let m2 = skip_ws(s, m);
            if m2 < s.len() && s[m2] == 44 {
                skip_elem_list(s, m2 + 1, fuel - 1)
            } else if m2 < s.len() && s[m2] == 93 {
                Some(m2 + 1)
            } else {
                None
            }
        },
    }
}

/// Scans the members of an object whose values must all be numbers,
/// from the first member through the closing brace, collecting each
/// member's raw key bytes and raw number text in order.
pub open spec fn spec_parse_num_map_list(
    s: Seq<u8>,
    i: int,
    acc: Seq<(Seq<u8>, Seq<u8>)>,
    fuel: nat,
) -> Option<(Seq<(Seq<u8>, Seq<u8>)>, int)>
    decreases fuel,
{
    if fuel == 0 || i < 0 {
        None
    } else {
        let j = spec_skip_ws(s, i);
        if j < s.len() && s[j] == 34 {
            match spec_scan_string(s, j + 1) {
                None => None,
                Some(k) => {
                    let key = s.subrange(j + 1, k - 1);
                    let k2 = spec_skip_ws(s, k);
                    if k2 < s.len() && s[k2] == 58 {
                        let k3 = spec_skip_ws(s, k2 + 1);
                        match spec_scan_number(s, k3) {
                            None => None,
                            Some(m) => {
                                let acc2 = acc.push((key, s.subrange(k3, m)));
                                let m2 = spec_skip_ws(s, m);
                                if m2 < s.len() && s[m2] == 44 {
                                    spec_parse_num_map_list(s, m2 + 1, acc2, (fuel - 1) as nat)
                                } else if m2 < s.len() && s[m2] == 125 {
                                    Some((acc2, m2 + 1))
                                } else {
                                    None
                                }
                            },
                        }
                    } else {
                        None
                    }
                },
            }
        } else {
            None
        }
    }
}

/// Scans an object whose values must all be numbers, from its opening
/// brace. The result is the key-to-number list in member order and the
/// index just after the closing brace.
pub open spec fn spec_parse_num_map(s: Seq<u8>, i: int, fuel: nat) -> Option<
    (Seq<(Seq<u8>, Seq<u8>)>, int),
> {
    if 0 <= i < s.len() && s[i] == 123 {
        let j = spec_skip_ws(s, i + 1);
        if j < s.len() && s[j] == 125 {
            Some((Seq::empty(), j + 1))
        } else {
            spec_parse_num_map_list(s, i + 1, Seq::empty(), fuel)
        }
    } else {
        None
    }
}

/// The exec counterpart of `spec_parse_num_map`.
pub fn parse_num_map(s: &[u8], i: usize, fuel: usize) -> (r: Option<
    (Vec<(Vec<u8>, Vec<u8>)>, usize),
>)
    requires
        i <= s@.len(),
    ensures
        match r {
            Some(p) => spec_parse_num_map(s@, i as int, fuel as nat) == Some(
                (p.0.deep_view(), p.1 as int),
            ) && p.1 <= s@.len(),
            None => spec_parse_num_map(s@, i as int, fuel as nat) is None,
        },
{
    if !(i < s.len() && s[i] == 123) {
        return None;
    }
    let j = skip_ws(s, i + 1);
    if j < s.len() && s[j] == 125 {
        let acc: Vec<(Vec<u8>, Vec<u8>)> = Vec::new();
        proof {
            assert(acc.deep_view() =~= Seq::<(Seq<u8>, Seq<u8>)>::empty());
        }
        return Some((acc, j + 1));
    }
    let mut acc: Vec<(Vec<u8>, Vec<u8>)> = Vec::new();
    let mut cur: usize = i + 1;
    let mut f: usize = fuel;
    proof {
        assert(acc.deep_view() =~= Seq::<(Seq<u8>, Seq<u8>)>::empty());
    }
    loop
        invariant
            cur <= s@.len(),
            spec_parse_num_map(s@, i as int, fuel as nat) == spec_parse_num_map_list(
                s@,
                cur as int,
                acc.deep_view(),
                f as nat,
            ),
        decreases f,
    {
        if f == 0 {
            return None;
        }
        let j = skip_ws(s, cur);
        if !(j < s.len() && s[j] == 34) {
            return None;
        }
        match scan_string(s, j + 1) {
            None => {
                return None;
            },
            Some(k) => {
                let key = vstd::slice::slice_to_vec(vstd::slice::slice_subrange(s, j + 1, k - 1));
                let k2 = skip_ws(s, k);
                if !(k2 < s.len() && s[k2] == 58) {
                    return None;
                }
                let k3 = skip_ws(s, k2 + 1);
                match scan_number(s, k3) {
                    None => {
                        return None;
                    },
                    Some(m) => {
                        let num = vstd::slice::slice_to_vec(
                            vstd::slice::slice_subrange(s, k3, m),
                        );
                        let ghost prev = acc.deep_view();
                        let ghost keyv = key.deep_view();
                        let ghost numv = num.deep_view();
                        acc.push((key, num));
                        proof {
                            assert(acc.deep_view() =~~= prev.push((keyv, numv)));
                            assert(prev.push((keyv, numv)) =~~= prev.push(
                                (s@.subrange(j as int + 1, k as int - 1), s@.subrange(
                                    k3 as int,
                                    m as int,
                                )),
                            ));
                        }
                        let m2 = skip_ws(s, m);
                        if m2 < s.len() && s[m2] == 44 {
                            cur = m2 + 1;
                            f = f - 1;
                        } else if m2 < s.len() && s[m2] == 125 {
                            return Some((acc, m2 + 1));
                        } else {
                            return None;
                        }
                    },
                }
            },
        }
    }
}

/// Scans the members of an object whose values must all be objects of
/// numbers, from the first member through the closing brace, collecting
/// each member's raw key bytes and inner key-to-number list in order.
pub open spec fn spec_parse_rates_list(
    s: Seq<u8>,
    i: int,
    acc: Seq<(Seq<u8>, Seq<(Seq<u8>, Seq<u8>)>)>,
    fuel: nat,
) -> Option<(Seq<(Seq<u8>, Seq<(Seq<u8>, Seq<u8>)>)>, int)>
    decreases fuel,
{
    if fuel == 0 || i < 0 {
        None
    } else {
        let j = spec_skip_ws(s, i);
        if j < s.len() && s[j] == 34 {
            match spec_scan_string(s, j + 1) {
                None => None,
                Some(k) => {
                    let key = s.subrange(j + 1, k - 1);
                    let k2 = spec_skip_ws(s, k);
                    if k2 < s.len() && s[k2] == 58 {
                        let k3 = spec_skip_ws(s, k2 + 1);
                        match spec_parse_num_map(s, k3, (fuel - 1) as nat) {
                            None => None,
                            Some((inner, end)) => {
                                let acc2 = acc.push((key, inner));
                                let m2 = spec_skip_ws(s, end);
                                if m2 < s.len() && s[m2] == 44 {
                                    spec_parse_rates_list(s, m2 + 1, acc2, (fuel - 1) as nat)
                                } else if m2 < s.len() && s[m2] == 125 {
                                    Some((acc2, m2 + 1))
                                } else {
                                    None
                                }
                            },
                        }
                    } else {
                        None
                    }
                },
            }
        } else {
            None
        }
    }
}

/// Scans an object whose values must all be objects of numbers, from its
/// opening brace.
pub open spec fn spec_parse_rates_map(s: Seq<u8>, i: int, fuel: nat) -> Option<
    (Seq<(Seq<u8>, Seq<(Seq<u8>, Seq<u8>)>)>, int),
> {
    if 0 <= i < s.len() && s[i] == 123 {
        let j = spec_skip_ws(s, i + 1);
        if j < s.len() && s[j] == 125 {
            Some((Seq::empty(), j + 1))
        } else {
            spec_parse_rates_list(s, i + 1, Seq::empty(), fuel)
        }
    } else {
        None
    }
}

/// The exec counterpart of `spec_parse_rates_map`.
pub fn parse_rates_map(s: &[u8], i: usize, fuel: usize) -> (r: Option<
    (Vec<(Vec<u8>, Vec<(Vec<u8>, Vec<u8>)>)>, usize),
>)
    requires
        i <= s@.len(),
    ensures
        match r {
            Some(p) => spec_parse_rates_map(s@, i as int, fuel as nat) == Some(
                (p.0.deep_view(), p.1 as int),
            ) && p.1 <= s@.len(),
            None => spec_parse_rates_map(s@, i as int, fuel as nat) is None,
        },
{
    if !(i < s.len() && s[i] == 123) {
        return None;
    }
    let j = skip_ws(s, i + 1);
    if j < s.len() && s[j] == 125 {
        let acc: Vec<(Vec<u8>, Vec<(Vec<u8>, Vec<u8>)>)> = Vec::new();
        proof {
            assert(acc.deep_view() =~= Seq::<(Seq<u8>, Seq<(Seq<u8>, Seq<u8>)>)>::empty());
        }
        return Some((acc, j + 1));
    }
    let mut acc: Vec<(Vec<u8>, Vec<(Vec<u8>, Vec<u8>)>)> = Vec::new();
    let mut cur: usize = i + 1;
    let mut f: usize = fuel;
    proof {
        assert(acc.deep_view() =~= Seq::<(Seq<u8>, Seq<(Seq<u8>, Seq<u8>)>)>::empty());
    }
    loop
        invariant
            cur <= s@.len(),
            spec_parse_rates_map(s@, i as int, fuel as nat) == spec_parse_rates_list(
                s@,
                cur as int,
                acc.deep_view(),
                f as nat,
            ),
        decreases f,
    {
        if f == 0 {
            return None;
        }
        let j = skip_ws(s, cur);
        if !(j < s.len() && s[j] == 34) {
            return None;
        }
        match scan_string(s, j + 1) {
            None => {
                return None;
            },
            Some(k) => {
                let key = vstd::slice::slice_to_vec(vstd::slice::slice_subrange(s, j + 1, k - 1));
                let k2 = skip_ws(s, k);
                if !(k2 < s.len() && s[k2] == 58) {
                    return None;
                }
                let k3 = skip_ws(s, k2 + 1);
                match parse_num_map(s, k3, f - 1) {
                    None => {
                        return None;
                    },
                    Some((inner, end)) => {
                        let ghost prev = acc.deep_view();
                        let ghost keyv = key.deep_view();
                        let ghost innerv = inner.deep_view();
                        acc.push((key, inner));
                        proof {
                            assert(acc.deep_view() =~~= prev.push((keyv, innerv)));
                            assert(prev.push((keyv, innerv)) =~~= prev.push(
                                (s@.subrange(j as int + 1, k as int - 1), innerv),
                            ));
                        }
                        let m2 = skip_ws(s, end);
                        if m2 < s.len() && s[m2] == 44 {
                            cur = m2 + 1;
                            f = f - 1;
                        } else if m2 < s.len() && s[m2] == 125 {
                            return Some((acc, m2 + 1));
                        } else {
                            return None;
                        }
                    },
                }
            },
        }
    }
}

/// The key bytes of the member that holds the latest rates.
pub open spec fn conversion_rates_key() -> Seq<u8> {
    crate::ascii::ascii_of("conversion_rates"@)
}

/// The key bytes of the member that holds the per-day rates.
pub open spec fn rates_key() -> Seq<u8> {
    crate::ascii::ascii_of("rates"@)
}

/// The exec counterpart of `conversion_rates_key`.
pub fn conversion_rates_key_bytes() -> (r: Vec<u8>)
    ensures
        r@ == conversion_rates_key(),
{
    let lit: &str = "conversion_rates";
    proof {
        reveal_strlit("conversion_rates");
        assert(lit.is_ascii());
    }
    crate::ascii::ascii_bytes(lit)
}

/// The exec counterpart of `rates_key`.
pub fn rates_key_bytes() -> (r: Vec<u8>)
    ensures
        r@ == rates_key(),
{
    let lit: &str = "rates";
    proof {
        reveal_strlit("rates");
        assert(lit.is_ascii());
    }
    crate::ascii::ascii_bytes(lit)
}

/// Scans the members of the top-level object of the latest-rates
/// response. The member named by `conversion_rates_key` must hold an
/// object of numbers and may occur only once; every other member is
/// skipped. The result carries the collected map, if the member
/// occurred, and the index just after the closing brace.
pub open spec fn spec_point_fields(
    s: Seq<u8>,
    i: int,
    found: Option<Seq<(Seq<u8>, Seq<u8>)>>,
    fuel: nat,
) -> Option<(Option<Seq<(Seq<u8>, Seq<u8>)>>, int)>
    decreases fuel,
{
    if fuel == 0 || i < 0 {
        None
    } else {
        let j = spec_skip_ws(s, i);
        if j < s.len() && s[j] == 34 {
            match spec_scan_string(s, j + 1) {
                None => None,
                Some(k) => {
                    let key = s.subrange(j + 1, k - 1);
                    let k2 = spec_skip_ws(s, k);
                    if k2 < s.len() && s[k2] == 58 {
                        let k3 = spec_skip_ws(s, k2 + 1);
                        if key == conversion_rates_key() {
                            if found is Some {
                                None
                            } else {
                                match spec_parse_num_map(s, k3, (fuel - 1) as nat) {
                                    None => None,
                                    Some((m, end)) => {
                                        let m2 = spec_skip_ws(s, end);
                                        if m2 < s.len() && s[m2] == 44 {
                                            spec_point_fields(s, m2 + 1, Some(m), (fuel - 1) as nat)
                                        } else if m2 < s.len() && s[m2] == 125 {
                                            Some((Some(m), m2 + 1))
                                        } else {
                                            None
                                        }
                                    },
                                }
                            }
                        } else {
                            match spec_skip_value(s, k3, (fuel - 1) as nat) {
                                None => None,
                                Some(end) => {
                                    let m2 = spec_skip_ws(s, end);
                                    if m2 < s.len() && s[m2] == 44 {
                                        spec_point_fields(s, m2 + 1, found, (fuel - 1) as nat)
                                    } else if m2 < s.len() && s[m2] == 125 {
                                        Some((found, m2 + 1))
                                    } else {
                                        None
                                    }
                                },
                            }
                        }
                    } else {
                        None
                    }
                },
            }
        } else {
            None
        }
    }
}

/// Decodes the body of the latest-rates response: a JSON object that
/// holds the `conversion_rates` member, an object mapping currency-code
/// keys to numbers, with nothing but white space after it. `None` is a
/// body this decoding refuses.
pub open spec fn spec_point_response(s: Seq<u8>) -> Option<Seq<(Seq<u8>, Seq<u8>)>> {
    let i = spec_skip_ws(s, 0);
    if i < s.len() && s[i] == 123 {
        let j = spec_skip_ws(s, i + 1);
        if j < s.len() && s[j] == 125 {
            None
        } else {
            match spec_point_fields(s, i + 1, None, s.len() as nat) {
                None => None,
                Some((found, end)) => {
                    if spec_skip_ws(s, end) == s.len() {
                        found
                    } else {
                        None
                    }
                },
            }
        }
    } else {
        None
    }
}

/// The exec counterpart of `spec_point_response`.
pub fn parse_point_response(s: &[u8]) -> (r: Option<Vec<(Vec<u8>, Vec<u8>)>>)
    ensures
        match r {
            Some(m) => spec_point_response(s@) == Some(m.deep_view()),
            None => spec_point_response(s@) is None,
        },
{
    let i = skip_ws(s, 0);
    if !(i < s.len() && s[i] == 123) {
        return None;
    }
    let j = skip_ws(s, i + 1);
    if j < s.len() && s[j] == 125 {
        return None;
    }
    let conv = conversion_rates_key_bytes();
    let mut found: Option<Vec<(Vec<u8>, Vec<u8>)>> = None;
    let mut cur: usize = i + 1;
    let mut f: usize = s.len();
    loop
        invariant
            cur <= s@.len(),
            i < s@.len(),
            spec_skip_ws(s@, 0) == i as int,
            s@[i as int] == 123,
            !(spec_skip_ws(s@, i as int + 1) < s@.len() && s@[spec_skip_ws(s@, i as int + 1)]
                == 125),
            conv@ == conversion_rates_key(),
            spec_point_fields(s@, i as int + 1, None, s@.len() as nat) == spec_point_fields(
                s@,
                cur as int,
                found.deep_view(),
                f as nat,
            ),
        decreases f,
    {
        if f == 0 {
            return None;
        }
        let jj = skip_ws(s, cur);
        if !(jj < s.len() && s[jj] == 34) {
            return None;
        }
        match scan_string(s, jj + 1) {
            None => {
                return None;
            },
            Some(k) => {
                let k2 = skip_ws(s, k);
                if !(k2 < s.len() && s[k2] == 58) {
                    return None;
                }
                let k3 = skip_ws(s, k2 + 1);
                let keyb = vstd::slice::slice_subrange(s, jj + 1, k - 1);
                if crate::ascii::bytes_eq(keyb, conv.as_slice()) {
                    if found.is_some() {
                        return None;
                    }
                    match parse_num_map(s, k3, f - 1) {
                        None => {
                            return None;
                        },
                        Some((m, end)) => {
                            let m2 = skip_ws(s, end);
                            if m2 < s.len() && s[m2] == 44 {
                                found = Some(m);
                                cur = m2 + 1;
                                f = f - 1;
                            } else if m2 < s.len() && s[m2] == 125 {
                                let e2 = skip_ws(s, m2 + 1);
                                if e2 == s.len() {
                                    return Some(m);
                                } else {
                                    return None;
                                }
                            } else {
                                return None;
                            }
                        },
                    }
                } else {
                    match skip_value(s, k3, f - 1) {
                        None => {
                            return None;
                        },
                        Some(end) => {
                            let m2 = skip_ws(s, end);
                            if m2 < s.len() && s[m2] == 44 {
                                cur = m2 + 1;
                                f = f - 1;
                            } else if m2 < s.len() && s[m2] == 125 {
                                match found {
                                    Some(m) => {
                                        let e2 = skip_ws(s, m2 + 1);
                                        if e2 == s.len() {
                                            return Some(m);
                                        } else {
                                            return None;
                                        }
                                    },
                                    None => {
                                        return None;
                                    },
                                }
                            } else {
                                return None;
                            }
                        },
                    }
                }
            },
        }
    }
}

/// Scans the members of the top-level object of the history response.
/// The member named by `rates_key` must hold an object of objects of
/// numbers and may occur only once; every other member is skipped.
pub open spec fn spec_history_fields(
    s: Seq<u8>,
    i: int,
    found: Option<Seq<(Seq<u8>, Seq<(Seq<u8>, Seq<u8>)>)>>,
    fuel: nat,
) -> Option<(Option<Seq<(Seq<u8>, Seq<(Seq<u8>, Seq<u8>)>)>>, int)>
    decreases fuel,
{
    if fuel == 0 || i < 0 {
        None
    } else {
        let j = spec_skip_ws(s, i);
        if j < s.len() && s[j] == 34 {
            match spec_scan_string(s, j + 1) {
                None => None,
                Some(k) => {
                    let key = s.subrange(j + 1, k - 1);
                    let k2 = spec_skip_ws(s, k);
                    if k2 < s.len() && s[k2] == 58 {
                        let k3 = spec_skip_ws(s, k2 + 1);
                        if key == rates_key() {
                            if found is Some {
                                None
                            } else {
                                match spec_parse_rates_map(s, k3, (fuel - 1) as nat) {
                                    None => None,
                                    Some((m, end)) => {
                                        let m2 = spec_skip_ws(s, end);
                                        if m2 < s.len() && s[m2] == 44 {
                                            spec_history_fields(
                                                s,
                                                m2 + 1,
                                                Some(m),
                                                (fuel - 1) as nat,
                                            )
                                        } else if m2 < s.len() && s[m2] == 125 {
                                            Some((Some(m), m2 + 1))
                                        } else {
                                            None
                                        }
                                    },
                                }
                            }
                        } else {
                            match spec_skip_value(s, k3, (fuel - 1) as nat) {
                                None => None,
                                Some(end) => {
                                    let m2 = spec_skip_ws(s, end);
                                    if m2 < s.len() && s[m2] == 44 {
                                        spec_history_fields(s, m2 + 1, found, (fuel - 1) as nat)
                                    } else if m2 < s.len() && s[m2] == 125 {
                                        Some((found, m2 + 1))
                                    } else {
                                        None
                                    }
                                },
                            }
                        }
                    } else {
                        None
                    }
                },
            }
        } else {
            None
        }
    }
}

/// Decodes the body of the history response: a JSON object that holds
/// the `rates` member, an object mapping date keys to objects of
/// currency-code keys and numbers, with nothing but white space after
/// it. `None` is a body this decoding refuses.
pub open spec fn spec_history_response(s: Seq<u8>) -> Option<
    Seq<(Seq<u8>, Seq<(Seq<u8>, Seq<u8>)>)>,
> {
    let i = spec_skip_ws(s, 0);
    if i < s.len() && s[i] == 123 {
        let j = spec_skip_ws(s, i + 1);
        if j < s.len() && s[j] == 125 {
            None
        } else {
            match spec_history_fields(s, i + 1, None, s.len() as nat) {
                None => None,
                Some((found, end)) => {
                    if spec_skip_ws(s, end) == s.len() {
                        found
                    } else {
                        None
                    }
                },
            }
        }
    } else {
        None
    }
}

/// The exec counterpart of `spec_history_response`.
pub fn parse_history_response(s: &[u8]) -> (r: Option<
    Vec<(Vec<u8>, Vec<(Vec<u8>, Vec<u8>)>)>,
>)
    ensures
        match r {
            Some(m) => spec_history_response(s@) == Some(m.deep_view()),
            None => spec_history_response(s@) is None,
        },
{
    let i = skip_ws(s, 0);
    if !(i < s.len() && s[i] == 123) {
        return None;
    }
    let j = skip_ws(s, i + 1);
    if j < s.len() && s[j] == 125 {
        return None;
    }
    let rk = rates_key_bytes();
    let mut found: Option<Vec<(Vec<u8>, Vec<(Vec<u8>, Vec<u8>)>)>> = None;
    let mut cur: usize = i + 1;
    let mut f: usize = s.len();
    loop
        invariant
            cur <= s@.len(),
            i < s@.len(),
            spec_skip_ws(s@, 0) == i as int,
            s@[i as int] == 123,
            !(spec_skip_ws(s@, i as int + 1) < s@.len() && s@[spec_skip_ws(s@, i as int + 1)]
                == 125),
            rk@ == rates_key(),
            spec_history_fields(s@, i as int + 1, None, s@.len() as nat) == spec_history_fields(
                s@,
                cur as int,
                found.deep_view(),
                f as nat,
            ),
        decreases f,
    {
        if f == 0 {
            return None;
        }
        let jj = skip_ws(s, cur);
        if !(jj < s.len() && s[jj] == 34) {
            return None;
        }
        match scan_string(s, jj + 1) {
            None => {
                return None;
            },
            Some(k) => {
                let k2 = skip_ws(s, k);
                if !(k2 < s.len() && s[k2] == 58) {
                    return None;
                }
                let k3 = skip_ws(s, k2 + 1);
                let keyb = vstd::slice::slice_subrange(s, jj + 1, k - 1);
                if crate::ascii::bytes_eq(keyb, rk.as_slice()) {
                    if found.is_some() {
                        return None;
                    }
                    match parse_rates_map(s, k3, f - 1) {
                        None => {
                            return None;
                        },
                        Some((m, end)) => {
                            let m2 = skip_ws(s, end);
                            if m2 < s.len() && s[m2] == 44 {
                                found = Some(m);
                                cur = m2 + 1;
                                f = f - 1;
                            } else if m2 < s.len() && s[m2] == 125 {
                                let e2 = skip_ws(s, m2 + 1);
                                if e2 == s.len() {
                                    return Some(m);
                                } else {
                                    return None;
                                }
                            } else {
                                return None;
                            }
                        },
                    }
                } else {
                    match skip_value(s, k3, f - 1) {
                        None => {
                            return None;
                        },
                        Some(end) => {
                            let m2 = skip_ws(s, end);
                            if m2 < s.len() && s[m2] == 44 {
                                cur = m2 + 1;
                                f = f - 1;
                            } else if m2 < s.len() && s[m2] == 125 {
                                match found {
                                    Some(m) => {
                                        let e2 = skip_ws(s, m2 + 1);
                                        if e2 == s.len() {
                                            return Some(m);
                                        } else {
                                            return None;
                                        }
                                    },
                                    None => {
                                        return None;
                                    },
                                }
                            } else {
                                return None;
                            }
                        },
                    }
                }
            },
        }
    }
}

/// The value under `k` in a key-value list; when a key occurs more than
/// once, the later member wins.
pub open spec fn map_get_last<V>(m: Seq<(Seq<u8>, V)>, k: Seq<u8>) -> Option<V>
    decreases m.len(),
{
    if m.len() == 0 {
        None
    } else if m.last().0 == k {
        Some(m.last().1)
    } else {
        map_get_last(m.drop_last(), k)
    }
}

/// `map_get_last` returns the entry at an index whose key matches and
/// after which the key never occurs again.
pub proof fn lemma_map_get_last_at<V>(m: Seq<(Seq<u8>, V)>, k: Seq<u8>, idx: int)
    requires
        0 <= idx < m.len(),
        m[idx].0 == k,
        forall|t: int| idx < t < m.len() ==> m[t].0 != k,
    ensures
        map_get_last(m, k) == Some(m[idx].1),
    decreases m.len(),
{
    if idx == m.len() - 1 {
    } else {
        lemma_map_get_last_at(m.drop_last(), k, idx);
    }
}

/// `map_get_last` finds nothing when no key matches.
pub proof fn lemma_map_get_last_none<V>(m: Seq<(Seq<u8>, V)>, k: Seq<u8>)
    requires
        forall|t: int| 0 <= t < m.len() ==> m[t].0 != k,
    ensures
        map_get_last(m, k) is None,
    decreases m.len(),
{
    if m.len() > 0 {
        lemma_map_get_last_none(m.drop_last(), k);
    }
}

/// Finds the index of the last member whose key equals `key`, the member
/// `map_get_last` speaks of.
pub fn find_last<T: DeepView>(m: &Vec<(Vec<u8>, T)>, key: &[u8]) -> (r: Option<usize>)
    ensures
        match r {
            Some(idx) => idx < m@.len() && map_get_last(m.deep_view(), key@) == Some(
                m.deep_view()[idx as int].1,
            ),
            None => map_get_last(m.deep_view(), key@) is None,
        },
{
    proof {
        assert forall|t: int| 0 <= t < m@.len() implies (#[trigger] m.deep_view()[t]).0 == m@[t].0@ by {
            assert(m.deep_view()[t] == m@[t].deep_view());
            assert(m@[t].deep_view().0 =~= m@[t].0@);
        }
    }
    let mut i: usize = m.len();
    while i > 0
        invariant
            i <= m@.len(),
            forall|t: int| 0 <= t < m@.len() ==> (#[trigger] m.deep_view()[t]).0 == m@[t].0@,
            m.deep_view().len() == m@.len(),
            forall|t: int| i <= t < m@.len() ==> m@[t].0@ != key@,
        decreases i,
    {
        i = i - 1;
        if crate::ascii::bytes_eq(m[i].0.as_slice(), key) {
            proof {
                assert forall|t: int| i < t < m.deep_view().len() implies (#[trigger] m.deep_view()[t]).0 != key@ by {
                    assert(m.deep_view()[t].0 == m@[t].0@);
                }
                lemma_map_get_last_at(m.deep_view(), key@, i as int);
            }
            return Some(i);
        }
    }
    proof {
        assert forall|t: int| 0 <= t < m.deep_view().len() implies (#[trigger] m.deep_view()[t]).0
            != key@ by {
            assert(m.deep_view()[t].0 == m@[t].0@);
        }
        lemma_map_get_last_none(m.deep_view(), key@);
    }
    None
}

} // verus!
