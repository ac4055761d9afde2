//! Unsigned decimal numerals: reading them from text and writing them out.
//!
//! Reading follows the rules of `u64::from_str`: an optional leading `+`,
//! then one or more ASCII digits (leading zeros allowed), and a value that
//! does not exceed the bound of the target type.
use vstd::prelude::*;

verus! {

pub open spec fn is_digit(c: char) -> bool {
    '0' <= c && c <= '9'
}

pub open spec fn digit_value(c: char) -> nat {
    (c as int - '0' as int) as nat
}

pub open spec fn digit_char(d: nat) -> char {
    (d + '0' as int) as char
}

pub open spec fn all_digits(s: Seq<char>) -> bool {
    forall|i: int| 0 <= i < s.len() ==> is_digit(#[trigger] s[i])
}

/// The number that a string of digits denotes, most significant first.
pub open spec fn digits_value(s: Seq<char>) -> nat
    decreases s.len(),
{
    if s.len() == 0 {
        0
    } else {
        digits_value(s.drop_last()) * 10 + digit_value(s.last())
    }
}

/// The digits of a numeral once an optional leading `+` is removed.
pub open spec fn unsigned_digits(s: Seq<char>) -> Seq<char> {
    if s.len() > 0 && s[0] == '+' {
        s.drop_first()
    } else {
        s
    }
}

/// The value of `s` read as an unsigned numeral no larger than `max`.
pub open spec fn parse_unsigned(s: Seq<char>, max: nat) -> Option<nat> {
    let d = unsigned_digits(s);
    if d.len() > 0 && all_digits(d) && digits_value(d) <= max {
        Some(digits_value(d))
    } else {
        None
    }
}

/// The shortest decimal numeral of `n`: no sign and no leading zeros.
pub open spec fn decimal(n: nat) -> Seq<char>
    decreases n,
{
    if n < 10 {
        seq![digit_char(n)]
    } else {
        decimal(n / 10).push(digit_char(n % 10))
    }
}


proof fn lemma_digit_char(d: nat)
    requires
        d < 10,
    ensures
        is_digit(digit_char(d)),
        digit_value(digit_char(d)) == d,
{
}

/// Every decimal numeral is a non-empty string of digits that denotes its number.
pub proof fn lemma_decimal_digits(n: nat)
    ensures
        decimal(n).len() > 0,
        all_digits(decimal(n)),
        digits_value(decimal(n)) == n,
    decreases n,
{
    lemma_digit_char(n % 10);
    if n < 10 {
        assert(decimal(n).drop_last() =~= Seq::<char>::empty());
        assert(decimal(n).last() == digit_char(n));
        assert(digits_value(decimal(n)) == digits_value(Seq::<char>::empty()) * 10 + n);
    } else {
        lemma_decimal_digits(n / 10);
        let d = decimal(n);
        assert(d.drop_last() == decimal(n / 10));
        assert(d.last() == digit_char(n % 10));
        assert(n == (n / 10) * 10 + n % 10);
        assert forall|i: int| 0 <= i < d.len() implies is_digit(#[trigger] d[i]) by {
            if i < d.len() - 1 {
                assert(d[i] == decimal(n / 10)[i]);
            }
        }
    }
}

/// A numeral is read back as the number it was written from.
pub proof fn lemma_parse_decimal(n: nat, max: nat)
    requires
        n <= max,
    ensures
        parse_unsigned(decimal(n), max) == Some(n),
{
    lemma_decimal_digits(n);
    assert(is_digit(decimal(n)[0]));
    assert(unsigned_digits(decimal(n)) == decimal(n));
}

/// Appending digits never makes the value of a string of digits smaller.
proof fn lemma_digits_value_prefix(s: Seq<char>, k: int)
    requires
        0 <= k <= s.len(),
    ensures
        digits_value(s.subrange(0, k)) <= digits_value(s),
    decreases s.len(),
{
    if k < s.len() {
        lemma_digits_value_prefix(s.drop_last(), k);
        assert(s.drop_last().subrange(0, k) == s.subrange(0, k));
    } else {
        assert(s.subrange(0, k) == s);
    }
}

/// Reads `s` as an unsigned numeral no larger than `max`.
pub fn parse_unsigned_str(s: &str, max: u64) -> (r: Option<u64>)
    ensures
        r == (match parse_unsigned(s@, max as nat) {
            Some(v) => Some(v as u64),
            None => None,
        }),
{
    let len = s.unicode_len();
    let mut start: usize = 0;
    if len > 0 && s.get_char(0) == '+' {
        start = 1;
    }
    let ghost d = unsigned_digits(s@);
    assert(d == s@.subrange(start as int, len as int));
    if start == len {
        return None;
    }
    let mut acc: u64 = 0;
    let mut i: usize = start;
    while i < len
        invariant
            start <= i <= len,
            len == s@.len(),
            d == s@.subrange(start as int, len as int),
            d == unsigned_digits(s@),
            all_digits(d.subrange(0, i - start)),
            acc as nat == digits_value(d.subrange(0, i - start)),
            acc <= max,
        decreases len - i,
    {
        let c = s.get_char(i);
        if c < '0' || c > '9' {
            assert(!is_digit(d[i - start]));
            return None;
        }
        let next: u128 = acc as u128 * 10 + (c as u32 - '0' as u32) as u128;
        let ghost p = d.subrange(0, i + 1 - start);
        assert(p.drop_last() == d.subrange(0, i - start));
        assert(p.last() == c);
        if next > max as u128 {
            proof {
                if all_digits(d) {
                    lemma_digits_value_prefix(d, i + 1 - start);
                }
            }
            return None;
        }
        acc = next as u64;
        i = i + 1;
        assert forall|j: int| 0 <= j < p.len() implies is_digit(#[trigger] p[j]) by {
            if j < p.len() - 1 {
                assert(p[j] == d.subrange(0, i - 1 - start)[j]);
            }
        }
    }
    assert(d.subrange(0, i - start) == d);
    Some(acc)
}

/// Appends the decimal numeral of `n` to `s`.
pub fn push_decimal(s: &mut String, n: u64)
    ensures
        final(s)@ == old(s)@ + decimal(n as nat),
    decreases n,
{
    if n >= 10 {
        push_decimal(s, n / 10);
    }
    let d: u8 = (n % 10) as u8;
    s.push((d + 48) as char);
}

} // verus!
