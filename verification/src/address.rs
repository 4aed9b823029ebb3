//! Recipient-address validation.
//!
//! A destination address is well formed when it is 40 hexadecimal digits,
//! optionally preceded by the prefix `0x`. Validation happens before any
//! side effect is attempted: a malformed address never reaches the
//! broadcaster.

use vstd::prelude::*;
use vstd::string::StrSliceExecFns;

verus! {

/// A hexadecimal digit in either case: `0`-`9`, `a`-`f`, or `A`-`F`.
pub open spec fn is_hex_digit(c: char) -> bool {
    (48 <= c as u32 && c as u32 <= 57)  // '0' ..= '9'
    || (97 <= c as u32 && c as u32 <= 102)  // 'a' ..= 'f'
    || (65 <= c as u32 && c as u32 <= 70)  // 'A' ..= 'F'
}

/// Every character of `s` from position `from` on is a hexadecimal digit.
pub open spec fn hex_from(s: Seq<char>, from: int) -> bool {
    forall|i: int| from <= i < s.len() ==> is_hex_digit(#[trigger] s[i])
}

/// A well-formed destination address: exactly 40 hexadecimal digits,
/// optionally preceded by `0x`.
pub open spec fn valid_address(s: Seq<char>) -> bool {
    ||| (s.len() == 42 && s[0] == '0' && s[1] == 'x' && hex_from(s, 2))
    ||| (s.len() == 40 && hex_from(s, 0))
}

/// Decides whether one character is a hexadecimal digit.
pub fn is_hex_digit_char(c: char) -> (r: bool)
    ensures
        r == is_hex_digit(c),
{
    let u = c as u32;
    (48 <= u && u <= 57) || (97 <= u && u <= 102) || (65 <= u && u <= 70)
}

/// Decides whether `s` is a well-formed destination address.
pub fn validate_address(s: &str) -> (r: bool)
    ensures
        r == valid_address(s@),
{
    let n = s.unicode_len();
    if n != 40 && n != 42 {
        return false;
    }
    let start: usize = if n == 42 {
        if s.get_char(0) != '0' || s.get_char(1) != 'x' {
            return false;
        }
        2
    } else {
        0
    };
    let mut i: usize = start;
    while i < n
        invariant
            start <= i <= n,
            n == s@.len(),
            n == 40 || n == 42,
            n == 42 ==> start == 2 && s@[0] == '0' && s@[1] == 'x',
            n == 40 ==> start == 0,
            forall|j: int| start <= j < i ==> is_hex_digit(#[trigger] s@[j]),
        decreases n - i,
    {
        if !is_hex_digit_char(s.get_char(i)) {
            return false;
        }
        i += 1;
    }
    true
}

} // verus!
