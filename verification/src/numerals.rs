//! Numeric literal tokens: decimal digits, or `0x`-prefixed hexadecimal
//! digits, as they appear in assembly operands and in `READ` input.

use vstd::prelude::*;

verus! {

/// Whether a byte is a digit: always `0`-`9`; `A`-`F` and `a`-`f` too when
/// `hex` is set.
pub open spec fn spec_is_digit(b: u8, hex: bool) -> bool {
    (0x30 <= b && b <= 0x39) || (hex && ((0x41 <= b && b <= 0x46) || (0x61 <= b && b <= 0x66)))
}

/// The value of one digit byte.
pub open spec fn spec_digit_val(b: u8, hex: bool) -> nat {
    if 0x30 <= b && b <= 0x39 {
        (b - 0x30) as nat
    } else if hex && 0x41 <= b && b <= 0x46 {
        (b - 0x41 + 10) as nat
    } else if hex && 0x61 <= b && b <= 0x66 {
        (b - 0x61 + 10) as nat
    } else {
        0
    }
}

pub open spec fn spec_all_digits(s: Seq<u8>, hex: bool) -> bool {
    forall|i: int| 0 <= i < s.len() ==> spec_is_digit(#[trigger] s[i], hex)
}

/// The number written by a digit string, most significant digit first.
pub open spec fn spec_radix_value(s: Seq<u8>, hex: bool) -> nat
    decreases s.len(),
{
    if s.len() == 0 {
        0
    } else {
        spec_radix_value(s.drop_last(), hex) * (if hex {
            16nat
        } else {
            10nat
        }) + spec_digit_val(s.last(), hex)
    }
}

/// The value of a whole numeral token: `0x`-prefixed tokens are read as
/// hexadecimal, all others as decimal; `None` on any malformed token.
pub open spec fn spec_numeral_value(t: Seq<u8>) -> Option<nat> {
    if t.len() > 2 && t[0] == 0x30 && t[1] == 0x78 {
        if spec_all_digits(t.skip(2), true) {
            Some(spec_radix_value(t.skip(2), true))
        } else {
            None
        }
    } else {
        if t.len() >= 1 && spec_all_digits(t, false) {
            Some(spec_radix_value(t, false))
        } else {
            None
        }
    }
}

/// A numeral token as a 16-bit value; `None` when malformed or out of range.
pub open spec fn spec_numeral_u16(t: Seq<u8>) -> Option<u16> {
    match spec_numeral_value(t) {
        Some(v) => if v <= 0xffff {
            Some(v as u16)
        } else {
            None
        },
        None => None,
    }
}

/// A numeral token as a 32-bit value; `None` when malformed or out of range.
pub open spec fn spec_numeral_u32(t: Seq<u8>) -> Option<u32> {
    match spec_numeral_value(t) {
        Some(v) => if v <= 0xffff_ffff {
            Some(v as u32)
        } else {
            None
        },
        None => None,
    }
}

/// A digit string is worth at least any of its prefixes.
proof fn lemma_radix_value_prefix_le(s: Seq<u8>, hex: bool, i: int)
    requires
        0 <= i <= s.len(),
    ensures
        spec_radix_value(s.take(i), hex) <= spec_radix_value(s, hex),
    decreases s.len() - i,
{
    if i == s.len() {
        assert(s.take(i) =~= s);
    } else {
        assert(s.take(i + 1).drop_last() =~= s.take(i));
        assert(s.take(i + 1).last() == s[i]);
        lemma_radix_value_prefix_le(s, hex, i + 1);
    }
}

/// Read the digits of `t` between `start` and `end` in the given radix.
/// Returns their value exactly when the range is a nonempty digit string
/// whose value is at most `max`.
pub fn parse_radix(t: &[u8], start: usize, end: usize, hex: bool, max: u32) -> (r: Option<u32>)
    requires
        start <= end <= t@.len(),
    ensures
        ({
            let s = t@.subrange(start as int, end as int);
            match r {
                Some(v) => s.len() >= 1 && spec_all_digits(s, hex) && v == spec_radix_value(s, hex)
                    && v <= max,
                None => !(s.len() >= 1 && spec_all_digits(s, hex) && spec_radix_value(s, hex)
                    <= max),
            }
        }),
{
    if start == end {
        return None;
    }
    let ghost s = t@.subrange(start as int, end as int);
    let mut i: usize = start;
    let mut acc: u64 = 0;
    while i < end
        invariant
            start <= i <= end <= t@.len(),
            s == t@.subrange(start as int, end as int),
            spec_all_digits(t@.subrange(start as int, i as int), hex),
            acc == spec_radix_value(t@.subrange(start as int, i as int), hex),
            acc <= max,
            max <= 0xffff_ffff,
        decreases end - i,
    {
        let b = t[i];
        let d: u8;
        if 0x30 <= b && b <= 0x39 {
            d = b - 0x30;
        } else if hex && 0x41 <= b && b <= 0x46 {
            d = b - 0x41 + 10;
        } else if hex && 0x61 <= b && b <= 0x66 {
            d = b - 0x61 + 10;
        } else {
            proof {
                assert(s[i - start] == b);
                assert(!spec_is_digit(b, hex));
            }
            return None;
        }
        let base: u64 = if hex {
            16
        } else {
            10
        };
        proof {
            assert(t@.subrange(start as int, i + 1 as int).drop_last() =~= t@.subrange(
                start as int,
                i as int,
            ));
            assert(t@.subrange(start as int, i + 1 as int).last() == t@[i as int]);
            assert(spec_digit_val(b, hex) == d as nat);
        }
        acc = acc * base + (d as u64);
        i = i + 1;
        if acc > max as u64 {
            proof {
                lemma_radix_value_prefix_le(s, hex, i - start);
                assert(s.take(i - start) =~= t@.subrange(start as int, i as int));
            }
            return None;
        }
    }
    proof {
        assert(t@.subrange(start as int, i as int) =~= s);
    }
    Some(acc as u32)
}

/// Parse a whole numeral token as a 16-bit value.
pub fn parse_numeral_u16(t: &[u8]) -> (r: Option<u16>)
    ensures
        r == spec_numeral_u16(t@),
{
    let raw = if t.len() > 2 && t[0] == 0x30 && t[1] == 0x78 {
        proof {
            assert(t@.subrange(2, t@.len() as int) =~= t@.skip(2));
        }
        parse_radix(t, 2, t.len(), true, 0xffff)
    } else {
        proof {
            assert(t@.subrange(0, t@.len() as int) =~= t@);
        }
        parse_radix(t, 0, t.len(), false, 0xffff)
    };
    match raw {
        Some(v) => Some(v as u16),
        None => None,
    }
}

/// Parse a whole numeral token as a 32-bit value.
pub fn parse_numeral_u32(t: &[u8]) -> (r: Option<u32>)
    ensures
        r == spec_numeral_u32(t@),
{
    let raw = if t.len() > 2 && t[0] == 0x30 && t[1] == 0x78 {
        proof {
            assert(t@.subrange(2, t@.len() as int) =~= t@.skip(2));
        }
        parse_radix(t, 2, t.len(), true, 0xffff_ffff)
    } else {
        proof {
            assert(t@.subrange(0, t@.len() as int) =~= t@);
        }
        parse_radix(t, 0, t.len(), false, 0xffff_ffff)
    };
    raw
}

} // verus!
