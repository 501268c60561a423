//! Decimal numbers in text: formatting and parsing.

use vstd::prelude::*;
use crate::text::{all_digits, chars_of, digit, is_digit, string_from_chars};

verus! {

/// The ASCII digit for a value `0..=9`.
pub open spec fn digit_char(d: int) -> char {
    (48 + d) as char
}

/// The value of an ASCII digit.
pub open spec fn digit_value(c: char) -> nat {
    ((c as u32) - 48) as nat
}

/// Decimal representation of `n`, without leading zeros.
pub open spec fn decimal(n: nat) -> Seq<char>
    decreases n,
{
    if n < 10 {
        seq![digit_char(n as int)]
    } else {
        decimal(n / 10).push(digit_char((n % 10) as int))
    }
}

/// The number that a sequence of decimal digits denotes.
pub open spec fn digits_value(s: Seq<char>) -> nat
    decreases s.len(),
{
    if s.len() == 0 {
        0
    } else {
        digits_value(s.drop_last()) * 10 + digit_value(s.last())
    }
}

/// What `str::parse::<usize>` accepts: an optional `+`, then one or more
/// ASCII digits whose value fits in `usize`.
pub open spec fn parse_usize_spec(s: Seq<char>) -> Option<usize> {
    let d = if s.len() > 0 && s[0] == '+' {
        s.drop_first()
    } else {
        s
    };
    if d.len() > 0 && all_digits(d) && digits_value(d) <= usize::MAX {
        Some(digits_value(d) as usize)
    } else {
        None
    }
}

proof fn lemma_digits_value_prefix(s: Seq<char>, k: int)
    requires
        0 <= k <= s.len(),
        all_digits(s),
    ensures
        digits_value(s.take(k)) <= digits_value(s),
    decreases s.len(),
{
    if k < s.len() {
        assert(s.drop_last().take(k) =~= s.take(k));
        lemma_digits_value_prefix(s.drop_last(), k);
    } else {
        assert(s.take(k) =~= s);
    }
}

/// Parses a decimal `usize` the way `str::parse` does.
pub fn parse_usize(s: &str) -> (r: Option<usize>)
    ensures
        r == parse_usize_spec(s@),
{
    let chars = chars_of(s);
    let start: usize = if chars.len() > 0 && chars[0] == '+' {
        1
    } else {
        0
    };
    let ghost d = s@.subrange(start as int, s@.len() as int);
    proof {
        if start == 1 {
            assert(d =~= s@.drop_first());
        } else {
            assert(d =~= s@);
        }
    }
    if start >= chars.len() {
        return None;
    }
    let mut k: usize = start;
    while k < chars.len()
        invariant
            chars@ == s@,
            start <= k <= chars@.len(),
            start < chars@.len(),
            d == s@.subrange(start as int, s@.len() as int),
            parse_usize_spec(s@) == (if all_digits(d) && digits_value(d) <= usize::MAX {
                Some(digits_value(d) as usize)
            } else {
                None
            }),
            forall|j: int| 0 <= j < k - start ==> is_digit(#[trigger] d[j]),
        decreases chars@.len() - k,
    {
        if !digit(chars[k]) {
            assert(!is_digit(d[k - start]));
            return None;
        }
        k = k + 1;
    }
    assert(all_digits(d));
    let mut value: usize = 0;
    let mut i: usize = start;
    while i < chars.len()
        invariant
            chars@ == s@,
            start <= i <= chars@.len(),
            d == s@.subrange(start as int, s@.len() as int),
            all_digits(d),
            parse_usize_spec(s@) == (if digits_value(d) <= usize::MAX {
                Some(digits_value(d) as usize)
            } else {
                None
            }),
            value == digits_value(d.take(i - start)),
        decreases chars@.len() - i,
    {
        let c = chars[i];
        assert(is_digit(d[i - start]));
        let dv: usize = ((c as u32) - 48) as usize;
        proof {
            assert(d.take(i + 1 - start).drop_last() =~= d.take(i - start));
        }
        match value.checked_mul(10) {
            None => {
                proof {
                    lemma_digits_value_prefix(d, i + 1 - start);
                }
                return None;
            },
            Some(t) => match t.checked_add(dv) {
                None => {
                    proof {
                        lemma_digits_value_prefix(d, i + 1 - start);
                    }
                    return None;
                },
                Some(v) => {
                    value = v;
                },
            },
        }
        i = i + 1;
    }
    assert(d.take(chars@.len() - start) =~= d);
    Some(value)
}

/// Decimal representation of a `u32`.
pub fn u32_decimal(n: u32) -> (s: String)
    ensures
        s@ == decimal(n as nat),
{
    let mut rev: Vec<char> = Vec::new();
    let mut m: u32 = n;
    while m > 0 || rev.len() == 0
        invariant
            rev@.len() == 0 ==> m == n,
            rev@.len() > 0 ==> decimal(n as nat) == decimal_with(m as nat, reversed(rev@)),
        decreases m + if rev@.len() == 0 {
            1int
        } else {
            0int
        },
    {
        let d: u8 = (m % 10) as u8;
        let c: char = (48u8 + d) as char;
        proof {
            assert(c == digit_char((m % 10) as int));
            assert(reversed(rev@.push(c)) =~= seq![c] + reversed(rev@));
            if rev@.len() == 0 {
                assert(reversed(rev@) =~= Seq::<char>::empty());
                if m >= 10 {
                    assert(decimal(m as nat) =~= decimal((m / 10) as nat) + seq![c]);
                } else {
                    assert(decimal(m as nat) =~= seq![c]);
                }
            } else {
                if m >= 10 {
                    assert(decimal(m as nat) + reversed(rev@) =~= decimal((m / 10) as nat) + (seq![c] + reversed(rev@)));
                } else {
                    assert(decimal(m as nat) + reversed(rev@) =~= seq![c] + reversed(rev@));
                }
            }
        }
        rev.push(c);
        m = m / 10;
    }
    let mut out: Vec<char> = Vec::new();
    let mut i: usize = rev.len();
    while i > 0
        invariant
            i <= rev@.len(),
            out@ == reversed(rev@).take(rev@.len() - i),
        decreases i,
    {
        i = i - 1;
        out.push(rev[i]);
        proof {
            assert(reversed(rev@).take(rev@.len() - i) =~= reversed(rev@).take(rev@.len() - i - 1).push(
                rev@[i as int],
            ));
        }
    }
    proof {
        assert(reversed(rev@).take(rev@.len() as int) =~= reversed(rev@));
        assert(decimal(n as nat) == reversed(rev@));
    }
    string_from_chars(&out)
}

proof fn lemma_decimal(n: nat)
    ensures
        decimal(n).len() > 0,
        all_digits(decimal(n)),
        decimal(n)[0] != '+',
        digits_value(decimal(n)) == n,
    decreases n,
{
    if n < 10 {
        assert(decimal(n).drop_last() =~= Seq::<char>::empty());
        assert(digit_value(digit_char(n as int)) == n);
        assert(digits_value(Seq::<char>::empty()) == 0);
        assert(digits_value(decimal(n)) == digits_value(decimal(n).drop_last()) * 10 + digit_value(decimal(n).last()));
    } else {
        lemma_decimal(n / 10);
        assert(decimal(n).drop_last() =~= decimal(n / 10));
        assert(digit_value(digit_char((n % 10) as int)) == n % 10);
        assert(decimal(n).last() == digit_char((n % 10) as int));
        assert(digits_value(decimal(n)) == digits_value(decimal(n / 10)) * 10 + digit_value(decimal(n).last()));
        assert((n / 10) * 10 + n % 10 == n);
    }
}

/// Law: parsing the decimal representation of a number gives the number back.
pub proof fn lemma_parse_decimal_roundtrip(n: nat)
    requires
        n <= usize::MAX,
    ensures
        parse_usize_spec(decimal(n)) == Some(n as usize),
{
    lemma_decimal(n);
}

/// `s` backwards.
pub open spec fn reversed(s: Seq<char>) -> Seq<char> {
    Seq::new(s.len(), |i: int| s[s.len() - 1 - i])
}

/// The decimal digits of `m` (none when `m` is 0) followed by `tail`.
pub open spec fn decimal_with(m: nat, tail: Seq<char>) -> Seq<char> {
    if m == 0 {
        tail
    } else {
        decimal(m) + tail
    }
}

} // verus!
