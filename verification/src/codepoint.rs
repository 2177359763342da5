//! The codepoint token: `0x` followed by a hexadecimal number.

use vstd::prelude::*;
use crate::error::VectorDrawableError;
use crate::text::to_chars;

verus! {

/// The value of one hexadecimal digit, in either case.
pub open spec fn hex_digit(c: char) -> Option<nat> {
    if '0' <= c && c <= '9' {
        Some((c as u32 - '0' as u32) as nat)
    } else if 'a' <= c && c <= 'f' {
        Some((c as u32 - 'a' as u32 + 10) as nat)
    } else if 'A' <= c && c <= 'F' {
        Some((c as u32 - 'A' as u32 + 10) as nat)
    } else {
        None
    }
}

/// Every character of `s` is a hexadecimal digit.
pub open spec fn all_hex(s: Seq<char>) -> bool {
    forall|i: int| 0 <= i < s.len() ==> (#[trigger] hex_digit(s[i])) is Some
}

/// The number that the digits of `s` write in base 16, most significant
/// digit first. A character that is no digit counts as zero.
pub open spec fn hex_number(s: Seq<char>) -> nat
    decreases s.len(),
{
    if s.len() == 0 {
        0
    } else {
        16 * hex_number(s.drop_last()) + match hex_digit(s.last()) {
            Some(d) => d,
            None => 0,
        }
    }
}

/// The token starts with `0x`.
pub open spec fn has_hex_prefix(token: Seq<char>) -> bool {
    token.len() >= 2 && token[0] == '0' && token[1] == 'x'
}

/// What stands after `0x`.
pub open spec fn hex_digits_of(token: Seq<char>) -> Seq<char>
    recommends
        has_hex_prefix(token),
{
    token.subrange(2, token.len() as int)
}

/// The codepoint that a token denotes.
///
/// A token without the `0x` prefix is an unsupported form, whatever else it
/// holds. After the prefix stands at least one hexadecimal digit and nothing
/// else, not even a sign; the number must fit in 32 bits.
pub open spec fn codepoint_of(token: Seq<char>) -> Result<u32, VectorDrawableError> {
    if !has_hex_prefix(token) {
        Err(VectorDrawableError::UnsupportedCodepointForm)
    } else {
        let digits = hex_digits_of(token);
        if digits.len() == 0 || !all_hex(digits) || hex_number(digits) > u32::MAX {
            Err(VectorDrawableError::MalformedCodepoint)
        } else {
            Ok(hex_number(digits) as u32)
        }
    }
}

/// A number never shrinks when digits are appended to it.
proof fn lemma_hex_number_prefix(s: Seq<char>, n: int)
    requires
        0 <= n <= s.len(),
    ensures
        hex_number(s.subrange(0, n)) <= hex_number(s),
    decreases s.len(),
{
    if n == s.len() {
        assert(s.subrange(0, n) =~= s);
    } else {
        lemma_hex_number_prefix(s.drop_last(), n);
        assert(s.drop_last().subrange(0, n) =~= s.subrange(0, n));
    }
}

fn digit_value(c: char) -> (d: Option<u8>)
    ensures
        match d {
            Some(v) => hex_digit(c) == Some(v as nat) && v < 16,
            None => hex_digit(c) is None,
        },
{
    if '0' <= c && c <= '9' {
        Some((c as u32 - '0' as u32) as u8)
    } else if 'a' <= c && c <= 'f' {
        Some((c as u32 - 'a' as u32 + 10) as u8)
    } else if 'A' <= c && c <= 'F' {
        Some((c as u32 - 'A' as u32 + 10) as u8)
    } else {
        None
    }
}

/// Reads a codepoint token.
pub fn parse_codepoint(token: &str) -> (r: Result<u32, VectorDrawableError>)
    ensures
        r == codepoint_of(token@),
{
    let chars = to_chars(token);
    let n: usize = chars.len();
    if n < 2 || chars[0] != '0' || chars[1] != 'x' {
        return Err(VectorDrawableError::UnsupportedCodepointForm);
    }
    if n == 2 {
        return Err(VectorDrawableError::MalformedCodepoint);
    }
    let ghost digits = hex_digits_of(token@);
    assert(digits =~= chars@.subrange(2, n as int));
    let mut value: u64 = 0;
    let mut i: usize = 2;
    while i < n
        invariant
            2 <= i <= n,
            n == chars@.len(),
            digits == chars@.subrange(2, n as int),
            digits == hex_digits_of(token@),
            has_hex_prefix(token@),
            all_hex(digits.subrange(0, i - 2)),
            value == hex_number(digits.subrange(0, i - 2)),
            value <= u32::MAX,
        decreases n - i,
    {
        let ghost before = digits.subrange(0, i - 2);
        let ghost after = digits.subrange(0, i - 1);
        assert(after.drop_last() =~= before);
        assert(after.last() == chars@[i as int]);
        match digit_value(chars[i]) {
            None => {
                assert(hex_digit(digits[i - 2]) is None);
                return Err(VectorDrawableError::MalformedCodepoint);
            },
            Some(d) => {
                let next: u64 = value * 16 + d as u64;
                assert(next == hex_number(after));
                if next > u32::MAX as u64 {
                    proof {
                        lemma_hex_number_prefix(digits, i - 1);
                    }
                    return Err(VectorDrawableError::MalformedCodepoint);
                }
                assert forall|k: int| 0 <= k < after.len() implies (#[trigger] hex_digit(
                    after[k],
                )) is Some by {
                    if k < before.len() {
                        assert(after[k] == before[k]);
                    }
                }
                value = next;
                i += 1;
            },
        }
    }
    assert(digits.subrange(0, n - 2) =~= digits);
    Ok(value as u32)
}

} // verus!
