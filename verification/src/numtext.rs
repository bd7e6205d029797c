//! Decimal integers in text: reading them the way Rust's `str::parse` does
//! for `u32` and `i64`, and writing them the way `to_string` does.

use vstd::prelude::*;

verus! {

/// An ASCII decimal digit.
pub open spec fn is_digit(c: char) -> bool {
    48 <= (c as u32) <= 57
}

/// The value of an ASCII decimal digit.
pub open spec fn digit_value(c: char) -> int {
    (c as u32) - 48
}

/// Every character is an ASCII decimal digit.
pub open spec fn all_digits(s: Seq<char>) -> bool {
    forall|i: int| 0 <= i < s.len() ==> is_digit(#[trigger] s[i])
}

/// The number written by a string of decimal digits.
pub open spec fn digits_value(s: Seq<char>) -> int
    decreases s.len(),
{
    if s.len() == 0 {
        0
    } else {
        10 * digits_value(s.drop_last()) + digit_value(s.last())
    }
}

/// The integer that `from_str` of a Rust integer type reads from `s`, before
/// its range check: one or more ASCII digits, after an optional `+` (or `-`
/// when the type is signed); `None` for any other text.
pub open spec fn decimal_value(s: Seq<char>, signed: bool) -> Option<int> {
    if s.len() == 0 {
        None
    } else if s[0] == '+' || (signed && s[0] == '-') {
        let rest = s.drop_first();
        if rest.len() > 0 && all_digits(rest) {
            Some(
                if s[0] == '-' {
                    -digits_value(rest)
                } else {
                    digits_value(rest)
                },
            )
        } else {
            None
        }
    } else if all_digits(s) {
        Some(digits_value(s))
    } else {
        None
    }
}

/// `s.parse::<u32>().ok()`.
pub open spec fn parse_u32_spec(s: Seq<char>) -> Option<u32> {
    match decimal_value(s, false) {
        Some(v) => if v <= u32::MAX {
            Some(v as u32)
        } else {
            None
        },
        None => None,
    }
}

/// `s.parse::<i64>().ok()`.
pub open spec fn parse_i64_spec(s: Seq<char>) -> Option<i64> {
    match decimal_value(s, true) {
        Some(v) => if i64::MIN <= v <= i64::MAX {
            Some(v as i64)
        } else {
            None
        },
        None => None,
    }
}

/// The character of a decimal digit.
pub open spec fn digit_char(d: int) -> char {
    if d == 0 {
        '0'
    } else if d == 1 {
        '1'
    } else if d == 2 {
        '2'
    } else if d == 3 {
        '3'
    } else if d == 4 {
        '4'
    } else if d == 5 {
        '5'
    } else if d == 6 {
        '6'
    } else if d == 7 {
        '7'
    } else if d == 8 {
        '8'
    } else {
        '9'
    }
}

/// The decimal text of a natural number, without leading zeros.
pub open spec fn nat_text(n: nat) -> Seq<char>
    decreases n,
{
    if n < 10 {
        seq![digit_char(n as int)]
    } else {
        nat_text(n / 10).push(digit_char((n % 10) as int))
    }
}

/// The decimal text of an integer, as `to_string` writes it.
pub open spec fn int_text(n: int) -> Seq<char> {
    if n < 0 {
        seq!['-'] + nat_text((-n) as nat)
    } else {
        nat_text(n as nat)
    }
}

proof fn lemma_digits_value_nonneg(s: Seq<char>)
    requires
        all_digits(s),
    ensures
        digits_value(s) >= 0,
    decreases s.len(),
{
    if s.len() > 0 {
        assert(all_digits(s.drop_last()));
        lemma_digits_value_nonneg(s.drop_last());
        assert(is_digit(s[s.len() - 1]));
    }
}

proof fn lemma_digits_value_prefix(s: Seq<char>, k: int)
    requires
        all_digits(s),
        0 <= k <= s.len(),
    ensures
        digits_value(s) >= digits_value(s.take(k)),
    decreases s.len(),
{
    if k < s.len() {
        assert(all_digits(s.drop_last()));
        lemma_digits_value_prefix(s.drop_last(), k);
        assert(s.drop_last().take(k) =~= s.take(k));
        lemma_digits_value_nonneg(s.drop_last());
        assert(is_digit(s[s.len() - 1]));
    } else {
        assert(s.take(k) =~= s);
    }
}

/// The value of the digits `s[start..]`, when they are all digits and the
/// value is at most `bound`.
fn digits_upto(s: &[char], start: usize, bound: u64) -> (r: Option<u64>)
    requires
        start <= s@.len(),
        9 <= bound <= 0x8000_0000_0000_0000,
    ensures
        ({
            let rest = s@.subrange(start as int, s@.len() as int);
            r == if all_digits(rest) && digits_value(rest) <= bound {
                Some(digits_value(rest) as u64)
            } else {
                None
            }
        }),
{
    let ghost rest = s@.subrange(start as int, s@.len() as int);
    let mut acc: u64 = 0;
    let mut i: usize = start;
    while i < s.len()
        invariant
            start <= i <= s@.len(),
            9 <= bound <= 0x8000_0000_0000_0000,
            rest == s@.subrange(start as int, s@.len() as int),
            all_digits(rest.take(i - start)),
            acc as int == digits_value(rest.take(i - start)),
            acc <= bound,
        decreases s.len() - i,
    {
        let c = s[i];
        let code = c as u32;
        if code < 48 || code > 57 {
            assert(rest[i - start] == c);
            assert(!is_digit(rest[i - start]));
            return None;
        }
        let d = (code - 48) as u64;
        assert(rest.take(i + 1 - start).drop_last() =~= rest.take(i - start));
        assert(rest.take(i + 1 - start).last() == c);
        assert(all_digits(rest.take(i + 1 - start)));
        if acc > (bound - d) / 10 {
            proof {
                assert(digits_value(rest.take(i + 1 - start)) == 10 * acc + d);
                assert(10 * acc + d > bound) by (nonlinear_arith)
                    requires
                        acc > (bound - d) / 10,
                        d <= 9,
                        d <= bound || true,
                ;
                if all_digits(rest) {
                    lemma_digits_value_prefix(rest, i + 1 - start);
                }
            }
            return None;
        }
        proof {
            assert(10 * acc + d <= bound) by (nonlinear_arith)
                requires
                    acc <= (bound - d) / 10,
                    d <= 9,
            ;
        }
        acc = acc * 10 + d;
        i = i + 1;
    }
    assert(rest.take(i - start) =~= rest);
    Some(acc)
}

/// `s.parse::<u32>().ok()`: reads a `u32` from its decimal text.
pub fn parse_u32(s: &[char]) -> (r: Option<u32>)
    ensures
        r == parse_u32_spec(s@),
{
    if s.len() == 0 {
        return None;
    }
    let start: usize = if s[0] == '+' {
        1
    } else {
        0
    };
    if start == 1 && s.len() == 1 {
        return None;
    }
    assert(start == 1 ==> s@.subrange(1, s@.len() as int) =~= s@.drop_first());
    assert(start == 0 ==> s@.subrange(0, s@.len() as int) =~= s@);
    proof {
        let rest = s@.subrange(start as int, s@.len() as int);
        if all_digits(rest) {
            lemma_digits_value_nonneg(rest);
        }
    }
    match digits_upto(s, start, 0xffff_ffff) {
        Some(v) => Some(v as u32),
        None => {
            proof {
                let rest = s@.subrange(start as int, s@.len() as int);
                if all_digits(rest) {
                    lemma_digits_value_nonneg(rest);
                }
                if start == 0 && s@.len() > 0 {
                    if s@[0] == '-' {
                        assert(!is_digit(s@[0]));
                    }
                }
            }
            None
        },
    }
}

/// `s.parse::<i64>().ok()`: reads an `i64` from its decimal text.
pub fn parse_i64(s: &[char]) -> (r: Option<i64>)
    ensures
        r == parse_i64_spec(s@),
{
    if s.len() == 0 {
        return None;
    }
    let negative = s[0] == '-';
    let start: usize = if s[0] == '+' || negative {
        1
    } else {
        0
    };
    if start == 1 && s.len() == 1 {
        return None;
    }
    assert(start == 1 ==> s@.subrange(1, s@.len() as int) =~= s@.drop_first());
    assert(start == 0 ==> s@.subrange(0, s@.len() as int) =~= s@);
    let bound: u64 = if negative {
        0x8000_0000_0000_0000
    } else {
        0x7fff_ffff_ffff_ffff
    };
    proof {
        let rest = s@.subrange(start as int, s@.len() as int);
        if all_digits(rest) {
            lemma_digits_value_nonneg(rest);
        }
    }
    match digits_upto(s, start, bound) {
        Some(v) => {
            if negative {
                if v == 0x8000_0000_0000_0000 {
                    Some(i64::MIN)
                } else {
                    Some(-(v as i64))
                }
            } else {
                Some(v as i64)
            }
        },
        None => {
            proof {
                let rest = s@.subrange(start as int, s@.len() as int);
                if all_digits(rest) {
                    lemma_digits_value_nonneg(rest);
                }
            }
            None
        },
    }
}

/// The character of the decimal digit `d`.
fn digit_to_char(d: u64) -> (c: char)
    requires
        d < 10,
    ensures
        c == digit_char(d as int),
{
    if d == 0 {
        '0'
    } else if d == 1 {
        '1'
    } else if d == 2 {
        '2'
    } else if d == 3 {
        '3'
    } else if d == 4 {
        '4'
    } else if d == 5 {
        '5'
    } else if d == 6 {
        '6'
    } else if d == 7 {
        '7'
    } else if d == 8 {
        '8'
    } else {
        '9'
    }
}

fn push_nat_digits(n: u64, out: &mut Vec<char>)
    ensures
        final(out)@ == old(out)@ + nat_text(n as nat),
    decreases n,
{
    if n >= 10 {
        push_nat_digits(n / 10, out);
    }
    out.push(digit_to_char(n % 10));
    proof {
        if n < 10 {
            assert(old(out)@ + nat_text(n as nat) =~= old(out)@.push(digit_char(n as int)));
        } else {
            assert(((n / 10) as nat) == (n as nat) / 10);
        }
    }
}

/// `n.to_string()` for an `i64`, as characters.
pub fn i64_chars(n: i64) -> (v: Vec<char>)
    ensures
        v@ == int_text(n as int),
{
    let mut v: Vec<char> = Vec::new();
    if n < 0 {
        v.push('-');
        let m: u64 = ((-(n + 1)) as u64) + 1;
        assert(m as int == -(n as int));
        push_nat_digits(m, &mut v);
    } else {
        push_nat_digits(n as u64, &mut v);
        assert(v@ =~= nat_text(n as nat));
    }
    v
}

/// `n.to_string()` for an `i64`.
pub fn i64_text(n: i64) -> (s: String)
    ensures
        s@ == int_text(n as int),
{
    let v = i64_chars(n);
    crate::text::string_of(v.as_slice())
}

} // verus!
