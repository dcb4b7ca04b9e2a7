//! Case-insensitive hexadecimal decoding of identifier fields.
//!
//! Identifier fields arrive as strings; the engine reads them byte by byte as
//! UTF-8, so all specifications here are stated over byte sequences.  Every
//! hexadecimal digit is an ASCII byte, so for well-formed fields the byte view
//! and the character view coincide.

use vstd::prelude::*;

verus! {

/// The byte is an ASCII hexadecimal digit, either case.
pub open spec fn is_hex_digit(b: u8) -> bool {
    (0x30 <= b && b <= 0x39) || (0x61 <= b && b <= 0x66) || (0x41 <= b && b <= 0x46)
}

/// Numeric value of one hexadecimal digit; `a` and `A` both denote ten.
pub open spec fn hex_digit_value(b: u8) -> nat
    recommends
        is_hex_digit(b),
{
    if 0x30 <= b && b <= 0x39 {
        (b - 0x30) as nat
    } else if 0x61 <= b && b <= 0x66 {
        (b - 0x61 + 10) as nat
    } else {
        (b - 0x41 + 10) as nat
    }
}

/// Every byte of the sequence is a hexadecimal digit.
pub open spec fn all_hex_digits(s: Seq<u8>) -> bool {
    forall|i: int| 0 <= i < s.len() ==> is_hex_digit(#[trigger] s[i])
}

/// The unsigned value denoted by a big-endian sequence of hexadecimal digits.
pub open spec fn hex_value(s: Seq<u8>) -> nat
    decreases s.len(),
{
    if s.len() == 0 {
        0
    } else {
        hex_value(s.drop_last()) * 16 + hex_digit_value(s.last())
    }
}

/// Sixteen to the power `n`: the number of values a string of `n`
/// hexadecimal digits can denote.
pub open spec fn pow16(n: nat) -> nat
    decreases n,
{
    if n == 0 {
        1
    } else {
        16 * pow16((n - 1) as nat)
    }
}

pub proof fn lemma_pow16_monotone(n: nat, m: nat)
    requires
        n <= m,
    ensures
        pow16(n) <= pow16(m),
    decreases m,
{
    if n < m {
        lemma_pow16_monotone(n, (m - 1) as nat);
        assert(pow16(m) == 16 * pow16((m - 1) as nat));
    }
}

/// A string of `n` hexadecimal digits denotes a value below sixteen to the `n`.
pub proof fn lemma_hex_value_bound(s: Seq<u8>)
    requires
        all_hex_digits(s),
    ensures
        hex_value(s) < pow16(s.len()),
    decreases s.len(),
{
    if s.len() > 0 {
        assert(all_hex_digits(s.drop_last()));
        lemma_hex_value_bound(s.drop_last());
        assert(is_hex_digit(s[s.len() - 1]));
        assert(hex_digit_value(s.last()) < 16);
    }
}

/// Lower-cases one ASCII hexadecimal letter; other bytes are unchanged.
pub open spec fn lower_hex(b: u8) -> u8 {
    if 0x41 <= b && b <= 0x46 {
        (b + 0x20) as u8
    } else {
        b
    }
}

/// Decoding is case-insensitive: two hexadecimal digit strings that are
/// equal after lower-casing denote the same value.
pub proof fn lemma_hex_case_insensitive(s: Seq<u8>, t: Seq<u8>)
    requires
        s.len() == t.len(),
        all_hex_digits(s),
        all_hex_digits(t),
        forall|i: int| 0 <= i < s.len() ==> lower_hex(#[trigger] s[i]) == lower_hex(t[i]),
    ensures
        hex_value(s) == hex_value(t),
    decreases s.len(),
{
    if s.len() > 0 {
        assert(all_hex_digits(s.drop_last()));
        assert(all_hex_digits(t.drop_last()));
        assert(forall|i: int|
            0 <= i < s.drop_last().len() ==> lower_hex(#[trigger] s.drop_last()[i]) == lower_hex(
                t.drop_last()[i],
            ));
        lemma_hex_case_insensitive(s.drop_last(), t.drop_last());
        assert(is_hex_digit(s[s.len() - 1]));
        assert(is_hex_digit(t[t.len() - 1]));
        assert(lower_hex(s[s.len() - 1]) == lower_hex(t[t.len() - 1]));
        assert(hex_digit_value(s.last()) == hex_digit_value(t.last()));
    }
}

/// Decodes a big-endian hexadecimal byte string of at most 16 digits.
/// Returns `None` exactly when some byte is not a hexadecimal digit.
pub fn parse_hex_u64(bytes: &[u8]) -> (r: Option<u64>)
    requires
        bytes@.len() <= 16,
    ensures
        r is Some <==> all_hex_digits(bytes@),
        r is Some ==> r == Some((hex_value(bytes@) as u64)),
{
    let n = bytes.len();
    let mut v: u64 = 0;
    let mut i: usize = 0;
    while i < n
        invariant
            n == bytes@.len() <= 16,
            0 <= i <= n,
            all_hex_digits(bytes@.take(i as int)),
            v == hex_value(bytes@.take(i as int)),
        decreases n - i,
    {
        let b = bytes[i];
        let d: u64;
        if 0x30 <= b && b <= 0x39 {
            d = (b - 0x30) as u64;
        } else if 0x61 <= b && b <= 0x66 {
            d = (b - 0x61) as u64 + 10;
        } else if 0x41 <= b && b <= 0x46 {
            d = (b - 0x41) as u64 + 10;
        } else {
            assert(!is_hex_digit(bytes@[i as int]));
            return None;
        }
        proof {
            lemma_hex_value_bound(bytes@.take(i as int));
            lemma_pow16_monotone((i as nat) + 1, 16);
            reveal_with_fuel(pow16, 17);
            assert(pow16(16) == 0x1_0000_0000_0000_0000);
            assert(pow16((i as nat) + 1) == 16 * pow16(i as nat));
            assert(v * 16 + d < pow16((i as nat) + 1));
            assert(bytes@.take(i + 1).drop_last() =~= bytes@.take(i as int));
            assert(bytes@.take(i + 1).last() == bytes@[i as int]);
        }
        v = v * 16 + d;
        i = i + 1;
    }
    proof {
        assert(bytes@.take(n as int) =~= bytes@);
    }
    Some(v)
}

} // verus!
