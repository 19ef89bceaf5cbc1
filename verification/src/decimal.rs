//! Decimal text of unsigned integers, written and read as `usize`'s
//! `to_string` and `str::parse` do.

use vstd::prelude::*;

verus! {

/// The digit char of a value below ten.
pub open spec fn digit_char(d: int) -> char {
    (48 + d) as char
}

/// The decimal digits of `n`, most significant first, without leading zeros.
pub open spec fn decimal_text(n: nat) -> Seq<char>
    decreases n,
{
    if n < 10 {
        seq![digit_char(n as int)]
    } else {
        decimal_text(n / 10).push(digit_char((n % 10) as int))
    }
}

/// Whether `c` is an ASCII digit.
pub open spec fn is_digit(c: char) -> bool {
    '0' <= c && c <= '9'
}

/// Whether every char of `s` is an ASCII digit.
pub open spec fn all_digits(s: Seq<char>) -> bool {
    forall|i: int| 0 <= i < s.len() ==> is_digit(#[trigger] s[i])
}

/// The value the digits spell.
pub open spec fn digits_value(s: Seq<char>) -> int
    decreases s.len(),
{
    if s.len() == 0 {
        0
    } else {
        digits_value(s.drop_last()) * 10 + (s.last() as int - 48)
    }
}

/// `s` without one leading `+`.
pub open spec fn unsigned_digits(s: Seq<char>) -> Seq<char> {
    if s.len() > 0 && s[0] == '+' { s.subrange(1, s.len() as int) } else { s }
}

/// What parsing `s` as a `usize` gives: an optional `+` followed by at least
/// one ASCII digit, of a value that fits.
pub open spec fn parsed_usize(s: Seq<char>) -> Option<nat> {
    let digits = unsigned_digits(s);
    if digits.len() == 0 || !all_digits(digits) {
        None
    } else if digits_value(digits) > usize::MAX {
        None
    } else {
        Some(digits_value(digits) as nat)
    }
}

/// The decimal text of `n`.
pub fn usize_to_decimal(n: usize) -> (r: Vec<char>)
    ensures
        r@ == decimal_text(n as nat),
    decreases n,
{
    if n < 10 {
        let c = ((48 + n) as u8) as char;
        assert(c == digit_char(n as int));
        vec![c]
    } else {
        let mut r = usize_to_decimal(n / 10);
        let d = n % 10;
        let c = ((48 + d) as u8) as char;
        assert(c == digit_char(d as int));
        r.push(c);
        r
    }
}

proof fn lemma_digits_value_nonneg(s: Seq<char>)
    requires
        forall|i: int| 0 <= i < s.len() ==> is_digit(#[trigger] s[i]),
    ensures
        digits_value(s) >= 0,
    decreases s.len(),
{
    if s.len() > 0 {
        assert forall|i: int| 0 <= i < s.drop_last().len() implies is_digit(#[trigger] s.drop_last()[i]) by {
            assert(s.drop_last()[i] == s[i]);
        }
        lemma_digits_value_nonneg(s.drop_last());
    }
}

proof fn lemma_digits_value_grows(s: Seq<char>, k: int)
    requires
        0 <= k <= s.len(),
        forall|i: int| 0 <= i < s.len() ==> is_digit(#[trigger] s[i]),
    ensures
        digits_value(s.subrange(0, k)) <= digits_value(s),
    decreases s.len() - k,
{
    if k < s.len() {
        lemma_digits_value_grows(s, k + 1);
        let t = s.subrange(0, k + 1);
        assert(t.drop_last() =~= s.subrange(0, k));
        assert forall|i: int| 0 <= i < s.subrange(0, k).len() implies is_digit(#[trigger] s.subrange(0, k)[i]) by {
            assert(s.subrange(0, k)[i] == s[i]);
        }
        lemma_digits_value_nonneg(s.subrange(0, k));
        assert(is_digit(s[k]));
        assert(t.last() == s[k]);
        let v = digits_value(s.subrange(0, k));
        let d = s[k] as int - 48;
        assert(v <= v * 10 + d) by (nonlinear_arith)
            requires v >= 0, d >= 0;
    } else {
        assert(s.subrange(0, k) =~= s);
    }
}

/// Parses `s` as a `usize` would: an optional `+`, then ASCII digits, of a
/// value that fits; nothing otherwise.
pub fn parse_usize(s: &str) -> (r: Option<usize>)
    ensures
        match r {
            Some(v) => parsed_usize(s@) == Some(v as nat),
            None => parsed_usize(s@) is None,
        },
{
    let n = s.unicode_len();
    let mut start: usize = 0;
    if n > 0 && s.get_char(0) == '+' {
        start = 1;
    }
    let ghost digits = unsigned_digits(s@);
    assert(digits =~= s@.subrange(start as int, n as int));
    if start == n {
        return None;
    }
    let mut value: usize = 0;
    let mut i: usize = start;
    while i < n
        invariant
            n == s@.len(),
            start <= i <= n,
            digits == s@.subrange(start as int, n as int),
            digits == unsigned_digits(s@),
            forall|k: int| start <= k < i ==> is_digit(#[trigger] s@[k]),
            value == digits_value(s@.subrange(start as int, i as int)),
        decreases n - i,
    {
        let c = s.get_char(i);
        if !('0' <= c && c <= '9') {
            proof {
                assert(digits[i - start] == c);
                assert(!is_digit(digits[i - start]));
                assert(!all_digits(digits));
                assert(parsed_usize(s@) is None);
            }
            return None;
        }
        let d = (c as u32 - 48) as usize;
        assert(s@.subrange(start as int, i + 1).drop_last() =~= s@.subrange(start as int, i as int));
        assert(s@.subrange(start as int, i + 1).last() == c);
        match value.checked_mul(10) {
            None => {
                proof {
                    if all_digits(digits) {
                        lemma_digits_value_grows(digits, i + 1 - start);
                        assert(digits.subrange(0, i + 1 - start) =~= s@.subrange(start as int, i + 1));
                        assert(value * 10 > usize::MAX);
                        assert(digits_value(s@.subrange(start as int, i + 1)) == value * 10 + (c as int - 48));
                        assert(digits_value(digits) > usize::MAX);
                    }
                    assert(parsed_usize(s@) is None);
                }
                return None;
            },
            Some(m) => match m.checked_add(d) {
                None => {
                    proof {
                        if all_digits(digits) {
                            lemma_digits_value_grows(digits, i + 1 - start);
                            assert(digits.subrange(0, i + 1 - start) =~= s@.subrange(start as int, i + 1));
                            assert(digits_value(digits) > usize::MAX);
                        }
                        assert(parsed_usize(s@) is None);
                    }
                    return None;
                },
                Some(v) => {
                    value = v;
                },
            },
        }
        i = i + 1;
    }
    assert forall|k: int| 0 <= k < digits.len() implies is_digit(#[trigger] digits[k]) by {
        assert(digits[k] == s@[start + k]);
    }
    assert(all_digits(digits));
    assert(s@.subrange(start as int, n as int) =~= digits);
    Some(value)
}

} // verus!
