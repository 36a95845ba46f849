//! Record identifiers: opaque, store-assigned ids written as 24 hexadecimal
//! digits (96 bits), and the parser that rejects malformed id strings.

use vstd::prelude::*;
use vstd::string::StrSliceExecFns;

verus! {

/// A document identifier, immutable once created. Holds the 96-bit value of
/// the 24-digit hexadecimal form.
#[derive(Clone, Copy, PartialEq, Eq, Structural, Debug)]
pub struct RecordId {
    pub value: u128,
}

impl View for RecordId {
    type V = int;

    open spec fn view(&self) -> int {
        self.value as int
    }
}

/// Whether `c` is a hexadecimal digit, in either case.
pub open spec fn is_hex_digit(c: char) -> bool {
    let u = c as u32;
    (48 <= u && u <= 57) || (97 <= u && u <= 102) || (65 <= u && u <= 70)
}

/// The numeric value of the hexadecimal digit `c`.
pub open spec fn hex_digit_value(c: char) -> int {
    let u = c as u32;
    if 48 <= u && u <= 57 {
        u - 48
    } else if 97 <= u && u <= 102 {
        u - 87
    } else {
        u - 55
    }
}

/// Whether `s` is a well-formed id string: exactly 24 hexadecimal digits.
pub open spec fn is_oid_str(s: Seq<char>) -> bool {
    s.len() == 24 && (forall|i: int| 0 <= i < 24 ==> is_hex_digit(#[trigger] s[i]))
}

/// The numeric value of the hexadecimal string `s`, most significant digit
/// first.
pub open spec fn hex_value(s: Seq<char>) -> int
    decreases s.len(),
{
    if s.len() == 0 {
        0
    } else {
        hex_value(s.drop_last()) * 16 + hex_digit_value(s.last())
    }
}

/// Sixteen to the power `n`.
spec fn pow16(n: nat) -> int
    decreases n,
{
    if n == 0 {
        1
    } else {
        16 * pow16((n - 1) as nat)
    }
}

impl RecordId {
    /// The identifier's numeric value.
    pub fn value(&self) -> (r: u128)
        ensures
            r as int == self@,
    {
        self.value
    }

    /// Builds the identifier holding `value`; the store assigns ids this way.
    pub(crate) fn from_value(value: u64) -> (r: RecordId)
        ensures
            r@ == value as int,
    {
        RecordId { value: value as u128 }
    }

    /// Parses a 24-digit hexadecimal id string; any other string is rejected.
    pub fn parse_str(text: &str) -> (r: Option<RecordId>)
        ensures
            r is Some <==> is_oid_str(text@),
            r matches Some(id) ==> id@ == hex_value(text@),
    {
        if text.unicode_len() != 24 {
            return None;
        }
        let mut value: u128 = 0;
        let mut i: usize = 0;
        while i < 24
            invariant
                0 <= i <= 24,
                text@.len() == 24,
                forall|k: int| 0 <= k < i ==> is_hex_digit(#[trigger] text@[k]),
                value as int == hex_value(text@.subrange(0, i as int)),
                (value as int) < pow16(i as nat),
            decreases 24 - i,
        {
            let c = text.get_char(i);
            let u = c as u32;
            let d: u32 = if 48 <= u && u <= 57 {
                u - 48
            } else if 97 <= u && u <= 102 {
                u - 87
            } else if 65 <= u && u <= 70 {
                u - 55
            } else {
                assert(!is_hex_digit(text@[i as int]));
                return None;
            };
            proof {
                let prefix = text@.subrange(0, i as int);
                let next = text@.subrange(0, i as int + 1);
                assert(next.drop_last() =~= prefix);
                assert(hex_value(next) == hex_value(prefix) * 16 + hex_digit_value(c));
                assert((value as int) * 16 + d < 16 * pow16(i as nat)) by (nonlinear_arith)
                    requires
                        0 <= (value as int) < pow16(i as nat),
                        0 <= d < 16,
                ;
                lemma_pow16_le(i as nat + 1, 24);
                assert(pow16(24) == 0x1000000000000000000000000) by {
                    reveal_with_fuel(pow16, 25);
                }
            }
            value = value * 16 + d as u128;
            i += 1;
        }
        proof {
            assert(text@.subrange(0, 24) =~= text@);
        }
        Some(RecordId { value })
    }
}

/// Sixteen to the power grows with the exponent.
proof fn lemma_pow16_le(a: nat, b: nat)
    requires
        a <= b,
    ensures
        pow16(a) <= pow16(b),
    decreases b,
{
    if a < b {
        lemma_pow16_le(a, (b - 1) as nat);
        lemma_pow16_pos((b - 1) as nat);
        let p = pow16((b - 1) as nat);
        assert(p <= 16 * p) by (nonlinear_arith)
            requires
                p >= 1,
        ;
    }
}

/// Sixteen to the power is positive.
proof fn lemma_pow16_pos(n: nat)
    ensures
        pow16(n) >= 1,
    decreases n,
{
    if n > 0 {
        lemma_pow16_pos((n - 1) as nat);
    }
}

} // verus!
