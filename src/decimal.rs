//! Decimal digits: reading them as numbers and writing numbers as them.
use vstd::prelude::*;
use vstd::utf8::{
    encode_utf8, encode_utf8_decode_utf8, encode_utf8_valid_utf8, is_ascii_chars,
    is_ascii_chars_encode_utf8,
};
use crate::json::utf8_text;

verus! {

pub open spec fn is_digit(b: u8) -> bool {
    48 <= b && b <= 57
}

pub open spec fn all_digits(s: Seq<u8>) -> bool {
    forall|i: int| 0 <= i < s.len() ==> is_digit(#[trigger] s[i])
}

/// The number that a run of decimal digits writes.
pub open spec fn digits_value(s: Seq<u8>) -> nat
    decreases s.len(),
{
    if s.len() == 0 {
        0
    } else {
        digits_value(s.drop_last()) * 10 + (s.last() - 48) as nat
    }
}

/// The decimal digits of `n`, with no leading zero.
pub open spec fn decimal_of(n: nat) -> Seq<u8>
    decreases n,
{
    if n < 10 {
        seq![(48 + n) as u8]
    } else {
        decimal_of(n / 10).push((48 + n % 10) as u8)
    }
}

/// The decimal text of `n` is a non-empty run of digits that reads back
/// as `n`.
pub proof fn lemma_decimal_of(n: nat)
    ensures
        decimal_of(n).len() >= 1,
        all_digits(decimal_of(n)),
        digits_value(decimal_of(n)) == n,
    decreases n,
{
    let d = decimal_of(n);
    if n < 10 {
        assert(d.drop_last() =~= Seq::<u8>::empty());
        assert(d.last() == (48 + n) as u8);
        assert(digits_value(d.drop_last()) == 0);
        assert(digits_value(d) == digits_value(d.drop_last()) * 10 + (d.last() - 48) as nat);
    } else {
        lemma_decimal_of(n / 10);
        assert(d.drop_last() =~= decimal_of(n / 10));
        assert(d.last() == (48 + n % 10) as u8);
        assert((n / 10) * 10 + n % 10 == n);
        assert(digits_value(d) == digits_value(d.drop_last()) * 10 + (d.last() - 48) as nat);
        assert forall|i: int| 0 <= i < d.len() implies is_digit(#[trigger] d[i]) by {
            if i < d.len() - 1 {
                assert(d[i] == decimal_of(n / 10)[i]);
            }
        }
    }
}

pub fn decimal_bytes(n: u64) -> (r: Vec<u8>)
    ensures
        r@ == decimal_of(n as nat),
    decreases n,
{
    if n < 10 {
        let r = vec![48u8 + n as u8];
        assert(r@ =~= decimal_of(n as nat));
        r
    } else {
        let mut r = decimal_bytes(n / 10);
        r.push(48u8 + (n % 10) as u8);
        r
    }
}

/// A digit run is worth at least as much as any of its prefixes.
pub proof fn lemma_digits_value_prefix(s: Seq<u8>, i: int)
    requires
        all_digits(s),
        0 <= i <= s.len(),
    ensures
        digits_value(s.subrange(0, i)) <= digits_value(s),
    decreases s.len() - i,
{
    if i < s.len() {
        lemma_digits_value_prefix(s, i + 1);
        let t = s.subrange(0, i + 1);
        assert(t.drop_last() =~= s.subrange(0, i));
        assert(is_digit(t.last()));
    } else {
        assert(s.subrange(0, i) =~= s);
    }
}

/// A run of one digit or more whose value fits in `u64`.
pub open spec fn digits_u64(s: Seq<u8>) -> Option<u64> {
    if s.len() > 0 && all_digits(s) && digits_value(s) <= u64::MAX {
        Some(digits_value(s) as u64)
    } else {
        None
    }
}

/// Reads `buf[a..b]` as a run of decimal digits.
pub fn parse_digits(buf: &[u8], a: usize, b: usize) -> (r: Option<u64>)
    requires
        a <= b <= buf@.len(),
    ensures
        r == digits_u64(buf@.subrange(a as int, b as int)),
{
    let ghost d = buf@.subrange(a as int, b as int);
    if a == b {
        return None;
    }
    let mut acc: u64 = 0;
    let mut i: usize = a;
    while i < b
        invariant
            a < b <= buf@.len(),
            a <= i <= b,
            d == buf@.subrange(a as int, b as int),
            all_digits(d.subrange(0, i - a)),
            acc == digits_value(d.subrange(0, i - a)),
        decreases b - i,
    {
        let c = buf[i];
        assert(d[i - a] == c);
        if c < 48 || c > 57 {
            assert(!is_digit(d[i - a]));
            assert(!all_digits(d));
            return None;
        }
        let digit: u64 = (c - 48) as u64;
        let ghost next = d.subrange(0, i + 1 - a);
        assert(next.drop_last() =~= d.subrange(0, i - a));
        assert(next.last() == c);
        assert(digits_value(next) == acc * 10 + digit);
        assert(all_digits(next)) by {
            assert forall|j: int| 0 <= j < next.len() implies is_digit(#[trigger] next[j]) by {
                if j < next.len() - 1 {
                    assert(next[j] == d.subrange(0, i - a)[j]);
                }
            }
        }
        if acc > (u64::MAX - digit) / 10 {
            assert(acc * 10 + digit > u64::MAX) by (nonlinear_arith)
                requires
                    acc > (u64::MAX - digit) / 10,
                    digit <= 9,
            ;
            proof {
                if all_digits(d) {
                    lemma_digits_value_prefix(d, i + 1 - a);
                }
            }
            return None;
        }
        assert(acc * 10 + digit <= u64::MAX) by (nonlinear_arith)
            requires
                acc <= (u64::MAX - digit) / 10,
                digit <= 9,
        ;
        acc = acc * 10 + digit;
        i = i + 1;
    }
    assert(d.subrange(0, d.len() as int) =~= d);
    Some(acc)
}

/// A signed decimal that fits in `i64`: an optional `-`, then one digit or
/// more.
pub open spec fn i64_text(s: Seq<u8>) -> Option<i64> {
    if s.len() > 0 && s[0] == 45 {
        match digits_u64(s.drop_first()) {
            Some(m) => if m <= 0x8000_0000_0000_0000 {
                Some((-(m as int)) as i64)
            } else {
                None
            },
            None => None,
        }
    } else {
        match digits_u64(s) {
            Some(m) => if m <= i64::MAX {
                Some(m as i64)
            } else {
                None
            },
            None => None,
        }
    }
}

/// Reads all of `buf` as a signed decimal.
pub fn parse_i64(buf: &[u8]) -> (r: Option<i64>)
    ensures
        r == i64_text(buf@),
{
    let n = buf.len();
    if n > 0 && buf[0] == 45 {
        assert(buf@.drop_first() =~= buf@.subrange(1, n as int));
        match parse_digits(buf, 1, n) {
            Some(m) => {
                if m == 0x8000_0000_0000_0000 {
                    Some(i64::MIN)
                } else if m < 0x8000_0000_0000_0000 {
                    Some(-(m as i64))
                } else {
                    None
                }
            },
            None => None,
        }
    } else {
        assert(buf@ =~= buf@.subrange(0, n as int));
        match parse_digits(buf, 0, n) {
            Some(m) => {
                if m <= i64::MAX as u64 {
                    Some(m as i64)
                } else {
                    None
                }
            },
            None => None,
        }
    }
}

/// The decimal text of `n`: a `-` before the digits of a negative number.
pub open spec fn signed_decimal(n: i64) -> Seq<u8> {
    if n < 0 {
        seq![45u8] + decimal_of((-(n as int)) as nat)
    } else {
        decimal_of(n as nat)
    }
}

pub fn signed_decimal_bytes(n: i64) -> (r: Vec<u8>)
    ensures
        r@ == signed_decimal(n),
{
    if n < 0 {
        let m: u64 = if n == i64::MIN {
            0x8000_0000_0000_0000
        } else {
            (-n) as u64
        };
        let mut r = vec![45u8];
        let mut d = decimal_bytes(m);
        r.append(&mut d);
        assert(r@ =~= signed_decimal(n));
        r
    } else {
        decimal_bytes(n as u64)
    }
}

/// The characters of the decimal text of `n`.
pub open spec fn decimal_chars(n: nat) -> Seq<char> {
    decimal_of(n).map_values(|b: u8| b as char)
}

/// The decimal text of `n`, as a string.
pub fn decimal_string(n: u64) -> (r: String)
    ensures
        r@ == decimal_chars(n as nat),
        encode_utf8(r@) == decimal_of(n as nat),
{
    let b = decimal_bytes(n);
    let ghost c = decimal_chars(n as nat);
    proof {
        lemma_decimal_of(n as nat);
        assert forall|i: int| 0 <= i < c.len() implies '\0' <= #[trigger] c[i] <= '\u{7f}' by {
            assert(is_digit(b@[i]));
        }
        assert(is_ascii_chars(c));
        is_ascii_chars_encode_utf8(c);
        assert(encode_utf8(c) =~= b@);
        encode_utf8_valid_utf8(c);
        encode_utf8_decode_utf8(c);
    }
    match utf8_text(b.as_slice()) {
        Some(t) => t.to_owned(),
        None => String::new(),
    }
}

} // verus!
