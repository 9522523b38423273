//! Integer parsing for the fetchers: hex block numbers from chain-node
//! replies and decimal counters scraped from shell output, with an exact
//! account of when a parse succeeds, fails, or overflows.

use vstd::prelude::*;

verus! {

/// Value of one digit character under `radix`, or -1 when the character is
/// not a digit of that radix (0-9, a-z and A-Z, read the way
/// `from_str_radix` reads them).
pub open spec fn digit_val(c: char, radix: int) -> int {
    let u = c as int;
    let v = if 48 <= u && u <= 57 {
        u - 48  // '0'..='9'
    } else if 97 <= u && u <= 122 {
        u - 87  // 'a'..='z'
    } else if 65 <= u && u <= 90 {
        u - 55  // 'A'..='Z'
    } else {
        36
    };
    if v < radix {
        v
    } else {
        -1
    }
}

pub open spec fn all_digits(s: Seq<char>, radix: int) -> bool {
    forall|i: int| 0 <= i < s.len() ==> digit_val(s[i], radix) >= 0
}

/// Value of a digit string, most significant digit first.
pub open spec fn digits_val(s: Seq<char>, radix: int) -> int
    decreases s.len(),
{
    if s.len() == 0 {
        0
    } else {
        digits_val(s.drop_last(), radix) * radix + digit_val(s.last(), radix)
    }
}

/// The mathematical value a string denotes under `from_str_radix`-style
/// rules: an optional `+` or `-` sign, then one or more digits. `None` when
/// the string is empty or holds a character that is no digit of `radix`.
pub open spec fn str_radix_val(s: Seq<char>, radix: int) -> Option<int> {
    if s.len() > 0 && (s[0] == '+' || s[0] == '-') {
        let rest = s.subrange(1, s.len() as int);
        if rest.len() > 0 && all_digits(rest, radix) {
            Some(
                if s[0] == '-' {
                    -digits_val(rest, radix)
                } else {
                    digits_val(rest, radix)
                },
            )
        } else {
            None
        }
    } else if s.len() > 0 && all_digits(s, radix) {
        Some(digits_val(s, radix))
    } else {
        None
    }
}

/// Whether an i64 can hold `v`.
pub open spec fn fits_i64(v: int) -> bool {
    i64::MIN <= v <= i64::MAX
}

/// The value an i64 parse of `s` yields when every failure (empty input,
/// stray character, overflow) degrades to 0 instead of an error.
pub open spec fn coerced_i64_val(s: Seq<char>, radix: int) -> int {
    match str_radix_val(s, radix) {
        Some(v) => if fits_i64(v) {
            v
        } else {
            0
        },
        None => 0,
    }
}

proof fn lemma_digits_val_nonneg(s: Seq<char>, radix: int)
    requires
        radix >= 2,
        all_digits(s, radix),
    ensures
        digits_val(s, radix) >= 0,
    decreases s.len(),
{
    if s.len() > 0 {
        let p = s.drop_last();
        assert forall|i: int| 0 <= i < p.len() implies digit_val(p[i], radix) >= 0 by {
            assert(p[i] == s[i]);
        }
        lemma_digits_val_nonneg(p, radix);
        assert(digits_val(p, radix) * radix >= 0) by (nonlinear_arith)
            requires
                digits_val(p, radix) >= 0,
                radix >= 2,
        ;
    }
}

/// A digit string's value only grows as digits are appended: the value of a
/// prefix bounds the value of the whole string from below.
proof fn lemma_digits_val_prefix_le(s: Seq<char>, i: int, radix: int)
    requires
        radix >= 2,
        0 <= i <= s.len(),
        all_digits(s, radix),
    ensures
        digits_val(s.subrange(0, i), radix) <= digits_val(s, radix),
    decreases s.len() - i,
{
    if i == s.len() {
        assert(s.subrange(0, i) =~= s);
    } else {
        let p = s.subrange(0, i);
        let q = s.subrange(0, i + 1);
        assert(q.drop_last() =~= p);
        assert(q.last() == s[i]);
        assert forall|k: int| 0 <= k < p.len() implies digit_val(p[k], radix) >= 0 by {
            assert(p[k] == s[k]);
        }
        lemma_digits_val_nonneg(p, radix);
        assert(digits_val(p, radix) * radix >= digits_val(p, radix)) by (nonlinear_arith)
            requires
                digits_val(p, radix) >= 0,
                radix >= 2,
        ;
        assert(digits_val(q, radix) == digits_val(p, radix) * radix + digit_val(s[i], radix));
        lemma_digits_val_prefix_le(s, i + 1, radix);
    }
}

/// One digit of `radix`, read the way `char::to_digit` reads it.
pub fn digit_of(c: char, radix: u32) -> (r: Option<u32>)
    requires
        2 <= radix <= 36,
    ensures
        match r {
            Some(d) => digit_val(c, radix as int) == d as int && d < radix,
            None => digit_val(c, radix as int) == -1,
        },
{
    let u = c as u32;
    let v: u32 = if 48 <= u && u <= 57 {
        u - 48
    } else if 97 <= u && u <= 122 {
        u - 87
    } else if 65 <= u && u <= 90 {
        u - 55
    } else {
        36
    };
    if v < radix {
        Some(v)
    } else {
        None
    }
}

/// Parses `cs` as an i64 under `from_str_radix` rules: an optional sign,
/// then one or more digits of `radix`. `None` exactly on an empty string, a
/// stray character, or a value outside i64's range.
pub fn parse_i64_chars(cs: &Vec<char>, radix: u32) -> (r: Option<i64>)
    requires
        2 <= radix <= 36,
    ensures
        match r {
            Some(n) => str_radix_val(cs@, radix as int) == Some(n as int),
            None => match str_radix_val(cs@, radix as int) {
                Some(v) => !fits_i64(v),
                None => true,
            },
        },
{
    let len = cs.len();
    let mut neg = false;
    let mut start: usize = 0;
    if len > 0 && (cs[0] == '+' || cs[0] == '-') {
        neg = cs[0] == '-';
        start = 1;
    }
    if start >= len {
        return None;
    }
    let ghost digits = cs@.subrange(start as int, len as int);
    let mut acc: u128 = 0;
    let mut i: usize = start;
    while i < len
        invariant
            2 <= radix <= 36,
            start <= i <= len,
            len == cs@.len(),
            start <= 1,
            start < len,
            start == 1 ==> (cs@[0] == '+' || cs@[0] == '-'),
            start == 0 ==> !(cs@[0] == '+' || cs@[0] == '-'),
            neg == (start == 1 && cs@[0] == '-'),
            digits == cs@.subrange(start as int, len as int),
            all_digits(cs@.subrange(start as int, i as int), radix as int),
            acc as int == digits_val(cs@.subrange(start as int, i as int), radix as int),
            acc <= 0x8000_0000_0000_0000u128,
        decreases len - i,
    {
        let ghost p = cs@.subrange(start as int, i as int);
        let ghost q = cs@.subrange(start as int, i as int + 1);
        let c = cs[i];
        match digit_of(c, radix) {
            None => {
                proof {
                    assert(digits[i - start] == cs@[i as int]);
                    assert(!all_digits(digits, radix as int));
                }
                return None;
            },
            Some(d) => {
                proof {
                    assert((acc as int) * (radix as int) + (d as int) < 0x1_0000_0000_0000_0000_0000)
                        by (nonlinear_arith)
                        requires
                            acc as int <= 0x8000_0000_0000_0000,
                            2 <= radix as int,
                            radix as int <= 36,
                            0 <= d as int,
                            (d as int) < (radix as int),
                    ;
                }
                acc = acc * (radix as u128) + (d as u128);
                proof {
                    assert(q.drop_last() =~= p);
                    assert(q.last() == cs@[i as int]);
                    assert forall|k: int| 0 <= k < q.len() implies digit_val(
                        q[k],
                        radix as int,
                    ) >= 0 by {
                        if k < p.len() {
                            assert(q[k] == p[k]);
                        } else {
                            assert(q[k] == cs@[i as int]);
                        }
                    }
                    assert(acc as int == digits_val(q, radix as int));
                }
                if acc > 0x8000_0000_0000_0000u128 {
                    proof {
                        // The value only grows with further digits, so the
                        // parse either overflows or fails later on a stray
                        // character.
                        if all_digits(digits, radix as int) {
                            assert(q =~= digits.subrange(0, i as int + 1 - start));
                            lemma_digits_val_prefix_le(
                                digits,
                                i as int + 1 - start,
                                radix as int,
                            );
                            assert(digits_val(digits, radix as int) > 0x8000_0000_0000_0000);
                            if start == 1 {
                                assert(cs@.subrange(1, len as int) =~= digits);
                            } else {
                                assert(digits =~= cs@);
                            }
                        }
                    }
                    return None;
                }
                i += 1;
            },
        }
    }
    proof {
        let rad = radix as int;
        if start == 1 {
            assert(cs@.subrange(1, len as int) =~= digits);
            assert(digits.len() > 0);
            if neg {
                assert(str_radix_val(cs@, rad) == Some(-digits_val(digits, rad)));
            } else {
                assert(str_radix_val(cs@, rad) == Some(digits_val(digits, rad)));
            }
        } else {
            assert(digits =~= cs@);
            assert(str_radix_val(cs@, rad) == Some(digits_val(digits, rad)));
        }
        assert(acc as int == digits_val(digits, rad));
    }
    if neg {
        if acc == 0x8000_0000_0000_0000u128 {
            proof {
                assert(i64::MIN as int == -0x8000_0000_0000_0000);
            }
            Some(i64::MIN)
        } else {
            Some(-(acc as i64))
        }
    } else {
        if acc >= 0x8000_0000_0000_0000u128 {
            None
        } else {
            Some(acc as i64)
        }
    }
}

} // verus!

