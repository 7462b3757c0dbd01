//! Byte-level text handling shared by the orchestration phases: decimal
//! rendering and parsing (worker arguments and transaction counters),
//! hexadecimal rendering (transaction payloads), and the case-insensitive
//! comparison used by identity discovery.

use vstd::prelude::*;
use crate::errors::Error;

verus! {

pub open spec fn is_ascii_digit(b: u8) -> bool {
    48 <= b <= 57
}

/// The numeric value of one byte: its digit value, or 0 where it is no
/// digit (so the function is total and monotone lemmas hold of any byte).
pub open spec fn digit_value(b: u8) -> nat {
    if is_ascii_digit(b) {
        (b - 48) as nat
    } else {
        0
    }
}

pub open spec fn all_digits(s: Seq<u8>) -> bool {
    forall|i: int| 0 <= i < s.len() ==> is_ascii_digit(#[trigger] s[i])
}

/// The number a digit string denotes, most significant digit first.
pub open spec fn dec_value(s: Seq<u8>) -> nat
    decreases s.len(),
{
    if s.len() == 0 {
        0
    } else {
        dec_value(s.drop_last()) * 10 + digit_value(s.last())
    }
}

/// The canonical decimal rendering of `n`, without leading zeros.
pub open spec fn dec_rep(n: nat) -> Seq<u8>
    decreases n,
{
    if n < 10 {
        seq![(48 + n) as u8]
    } else {
        dec_rep(n / 10).push((48 + n % 10) as u8)
    }
}

/// Appends the decimal rendering of `n` to `v`.
pub fn push_decimal(v: &mut Vec<u8>, n: u64)
    ensures
        final(v)@ == old(v)@ + dec_rep(n as nat),
    decreases n,
{
    if n < 10 {
        v.push(48 + n as u8);
        assert(final(v)@ =~= old(v)@ + dec_rep(n as nat));
    } else {
        push_decimal(v, n / 10);
        v.push(48 + (n % 10) as u8);
        assert(final(v)@ =~= old(v)@ + dec_rep(n as nat));
    }
}

/// A digit string's value only grows as more digits are appended.
proof fn lemma_dec_value_prefix(s: Seq<u8>, m: int)
    requires
        0 <= m <= s.len(),
    ensures
        dec_value(s.take(m)) <= dec_value(s),
    decreases s.len() - m,
{
    if m == s.len() {
        assert(s.take(m) =~= s);
    } else {
        assert(s.take(m + 1).drop_last() =~= s.take(m));
        assert(dec_value(s.take(m + 1)) == dec_value(s.take(m)) * 10 + digit_value(s.take(m + 1).last()));
        assert(dec_value(s.take(m)) <= dec_value(s.take(m + 1)));
        lemma_dec_value_prefix(s, m + 1);
    }
}

/// Parses a worker's decimal transaction-count response. Fails with an
/// unparseable-count error exactly when the text is empty, holds a
/// non-digit byte, or denotes a number beyond `u64::MAX`.
pub fn parse_u64(s: &Vec<u8>) -> (r: Result<u64, Error>)
    ensures
        match r {
            Ok(v) => s@.len() > 0 && all_digits(s@) && v as nat == dec_value(s@),
            Err(e) => {
                &&& e == Error::UnparseableCount
                &&& (s@.len() == 0 || !all_digits(s@) || dec_value(s@) > u64::MAX)
            },
        },
{
    if s.len() == 0 {
        return Err(Error::UnparseableCount);
    }
    let mut acc: u64 = 0;
    let mut i: usize = 0;
    while i < s.len()
        invariant
            i <= s@.len(),
            acc as nat == dec_value(s@.take(i as int)),
            forall|j: int| 0 <= j < i ==> is_ascii_digit(#[trigger] s@[j]),
        decreases s@.len() - i,
    {
        let b = s[i];
        if b < 48 || b > 57 {
            return Err(Error::UnparseableCount);
        }
        let d: u64 = (b - 48) as u64;
        proof {
            assert(s@.take(i + 1).drop_last() =~= s@.take(i as int));
            assert(dec_value(s@.take(i + 1)) == acc as nat * 10 + digit_value(s@[i as int]));
        }
        let scaled = match acc.checked_mul(10) {
            Some(x) => x,
            None => {
                proof {
                    lemma_dec_value_prefix(s@, i + 1);
                }
                return Err(Error::UnparseableCount);
            },
        };
        acc = match scaled.checked_add(d) {
            Some(x) => x,
            None => {
                proof {
                    lemma_dec_value_prefix(s@, i + 1);
                }
                return Err(Error::UnparseableCount);
            },
        };
        i += 1;
    }
    proof {
        assert(s@.take(s@.len() as int) =~= s@);
    }
    Ok(acc)
}

/// The lower-case form of one ASCII byte; other bytes stay as they are.
pub open spec fn lower_byte(b: u8) -> u8 {
    if 65 <= b <= 90 {
        (b + 32) as u8
    } else {
        b
    }
}

/// Two byte strings are equal up to ASCII case.
pub open spec fn eq_ignore_case(a: Seq<u8>, b: Seq<u8>) -> bool {
    a.len() == b.len() && forall|i: int| 0 <= i < a.len() ==> lower_byte(#[trigger] a[i]) == lower_byte(b[i])
}

/// Case-insensitive comparison of two byte strings (ASCII letters only,
/// as account addresses are hexadecimal text).
pub fn ascii_eq_ignore_case(a: &Vec<u8>, b: &Vec<u8>) -> (r: bool)
    ensures
        r == eq_ignore_case(a@, b@),
{
    if a.len() != b.len() {
        return false;
    }
    let mut i: usize = 0;
    while i < a.len()
        invariant
            a@.len() == b@.len(),
            i <= a@.len(),
            forall|j: int| 0 <= j < i ==> lower_byte(#[trigger] a@[j]) == lower_byte(b@[j]),
        decreases a@.len() - i,
    {
        let x = a[i];
        let y = b[i];
        let xl = if 65 <= x && x <= 90 { x + 32 } else { x };
        let yl = if 65 <= y && y <= 90 { y + 32 } else { y };
        if xl != yl {
            return false;
        }
        i += 1;
    }
    true
}

/// The hexadecimal digit for a value below 16, lower case.
pub open spec fn hex_digit(x: u8) -> u8 {
    if x < 10 {
        (48 + x) as u8
    } else {
        (87 + x) as u8
    }
}

/// The hexadecimal rendering of a byte string, two digits per byte,
/// high nibble first.
pub open spec fn hex_rep(s: Seq<u8>) -> Seq<u8>
    decreases s.len(),
{
    if s.len() == 0 {
        Seq::empty()
    } else {
        hex_rep(s.drop_last()).push(hex_digit(s.last() / 16)).push(hex_digit(s.last() % 16))
    }
}

/// Each byte contributes exactly two hexadecimal digits.
pub proof fn lemma_hex_rep_len(s: Seq<u8>)
    ensures
        hex_rep(s).len() == 2 * s.len(),
    decreases s.len(),
{
    if s.len() > 0 {
        lemma_hex_rep_len(s.drop_last());
    }
}

/// Renders a byte string as lower-case hexadecimal text.
pub fn to_hex(bytes: &Vec<u8>) -> (r: Vec<u8>)
    ensures
        r@ == hex_rep(bytes@),
        r@.len() == 2 * bytes@.len(),
{
    let mut r: Vec<u8> = Vec::new();
    let mut i: usize = 0;
    while i < bytes.len()
        invariant
            i <= bytes@.len(),
            r@ == hex_rep(bytes@.take(i as int)),
        decreases bytes@.len() - i,
    {
        let b = bytes[i];
        let hi = b / 16;
        let lo = b % 16;
        r.push(if hi < 10 { 48 + hi } else { 87 + hi });
        r.push(if lo < 10 { 48 + lo } else { 87 + lo });
        proof {
            assert(bytes@.take(i + 1).drop_last() =~= bytes@.take(i as int));
            assert(r@ =~= hex_rep(bytes@.take(i + 1)));
        }
        i += 1;
    }
    proof {
        assert(bytes@.take(bytes@.len() as int) =~= bytes@);
        lemma_hex_rep_len(bytes@);
    }
    r
}

/// A plain copy of a byte string.
pub fn copy_bytes(src: &Vec<u8>) -> (r: Vec<u8>)
    ensures
        r@ == src@,
{
    let mut r: Vec<u8> = Vec::new();
    let mut i: usize = 0;
    while i < src.len()
        invariant
            i <= src@.len(),
            r@ == src@.take(i as int),
        decreases src@.len() - i,
    {
        r.push(src[i]);
        assert(r@ =~= src@.take(i + 1));
        i += 1;
    }
    proof {
        assert(src@.take(src@.len() as int) =~= src@);
    }
    r
}

/// A random transaction payload: `len` random bytes rendered as
/// hexadecimal text, so twice that many hex digits.
pub fn random_hex_payload(len: usize) -> (r: Vec<u8>)
    ensures
        r@.len() == 2 * len as int,
        exists|b: Seq<u8>| b.len() == len as nat && r@ == hex_rep(b),
{
    let bytes = crate::rng::random_bytes(len);
    let r = to_hex(&bytes);
    proof {
        assert(bytes@.len() == len as nat && r@ == hex_rep(bytes@));
    }
    r
}

} // verus!
