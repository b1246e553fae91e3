//! Password policy and generator, and the password manager's state.
//!
//! The generator draws characters uniformly — by rejection sampling —
//! from a fixed 76-character alphabet covering lowercase, uppercase, digit
//! and symbol classes, and retries until the complexity rule holds.
//! Attempts are capped: on pathologically biased randomness the generator
//! fails rather than looping forever.

use vstd::prelude::*;

use crate::database::Database;
use crate::encryption::random_bytes;
use crate::encryption::Encryption;
use crate::errors::VaultError;

verus! {

/// Number of characters in the generation alphabet.
pub const CHARSET_LEN: u8 = 76;

/// Upper bound on full generation attempts before giving up.
const MAX_ATTEMPTS: u32 = 64;

/// Largest byte value accepted by rejection sampling: the greatest multiple
/// of the alphabet size that fits in a byte, so `byte % 76` is uniform.
const REJECTION_BOUND: u8 = 228;

/// `c` is an ASCII lowercase letter.
pub open spec fn is_lower_char(c: char) -> bool {
    97 <= c as u32 <= 122
}

/// `c` is an ASCII uppercase letter.
pub open spec fn is_upper_char(c: char) -> bool {
    65 <= c as u32 <= 90
}

/// `c` is an ASCII digit.
pub open spec fn is_digit_char(c: char) -> bool {
    48 <= c as u32 <= 57
}

/// `c` is outside the three classes above.
pub open spec fn is_special_char(c: char) -> bool {
    !is_lower_char(c) && !is_upper_char(c) && !is_digit_char(c)
}

/// The complexity rule: at least one lowercase letter, one uppercase
/// letter, one digit, and one character outside those three classes.
pub open spec fn complexity_ok(s: Seq<char>) -> bool {
    &&& exists|i: int| 0 <= i < s.len() && is_lower_char(#[trigger] s[i])
    &&& exists|i: int| 0 <= i < s.len() && is_upper_char(#[trigger] s[i])
    &&& exists|i: int| 0 <= i < s.len() && is_digit_char(#[trigger] s[i])
    &&& exists|i: int| 0 <= i < s.len() && is_special_char(#[trigger] s[i])
}

/// A nonempty run of ASCII digits.
pub open spec fn is_digit_seq(s: Seq<char>) -> bool {
    s.len() > 0 && forall|i: int| 0 <= i < s.len() ==> is_digit_char(#[trigger] s[i])
}

/// The numeric value of one ASCII digit.
pub open spec fn digit_val(c: char) -> int {
    c as u32 - 48
}

/// The decimal value of a digit run.
pub open spec fn dec_value(s: Seq<char>) -> int
    decreases s.len(),
{
    if s.len() == 0 {
        0
    } else {
        dec_value(s.take(s.len() - 1)) * 10 + digit_val(s[s.len() - 1])
    }
}

/// The text parses as an integer in [8, 64]: an optional leading `+`, then
/// digits whose value lies in the range.
pub open spec fn valid_length_input(s: Seq<char>) -> bool {
    let digits = if s.len() > 0 && s[0] == '+' {
        s.skip(1)
    } else {
        s
    };
    is_digit_seq(digits) && 8 <= dec_value(digits) <= 64
}

proof fn lemma_dec_value_push(t: Seq<char>, c: char)
    ensures
        dec_value(t.push(c)) == dec_value(t) * 10 + digit_val(c),
{
    assert(t.push(c).take(t.push(c).len() - 1) =~= t);
    assert(t.push(c)[t.push(c).len() - 1] == c);
}

/// Relies on String::push: it appends exactly the one character.
#[verifier::external_body]
fn string_push_char(s: &mut String, c: char)
    ensures
        final(s)@ == old(s)@.push(c),
{
    s.push(c);
}

/// The character of the fixed generation alphabet at `idx`: the 26
/// lowercase letters, the 26 uppercase letters, the 10 digits, then the 14
/// symbols `! @ # $ % ^ & * ( ) - _ = +`.
fn charset_char(idx: u8) -> (c: char)
    requires
        idx < CHARSET_LEN,
    ensures
        idx < 26 ==> is_lower_char(c),
        26 <= idx < 52 ==> is_upper_char(c),
        52 <= idx < 62 ==> is_digit_char(c),
        62 <= idx ==> is_special_char(c),
{
    let b: u8 = if idx < 26 {
        97 + idx
    } else if idx < 52 {
        65 + (idx - 26)
    } else if idx < 62 {
        48 + (idx - 52)
    } else {
        match idx {
            62 => 33,  // !
            63 => 64,  // @
            64 => 35,  // #
            65 => 36,  // $
            66 => 37,  // %
            67 => 94,  // ^
            68 => 38,  // &
            69 => 42,  // *
            70 => 40,  // (
            71 => 41,  // )
            72 => 45,  // -
            73 => 95,  // _
            74 => 61,  // =
            _ => 43,  // +
        }
    };
    b as char
}

/// The password manager: the default generation length, the entry store
/// and the field cipher.
#[derive(Debug)]
pub struct PasswordManager {
    pub length: usize,
    pub database: Database,
    pub encryption: Encryption,
}

impl PasswordManager {
    /// Generate a random password of exactly `length` characters, drawn
    /// uniformly from the fixed alphabet by rejection sampling, retrying
    /// until the complexity rule holds. The length must lie in [8, 64];
    /// attempts are capped, and exhaustion or a failing random source is
    /// reported as a crypto failure rather than looping forever.
    pub fn generate_password(length: usize) -> (r: Result<String, VaultError>)
        ensures
            r matches Ok(p) ==> 8 <= length <= 64 && p@.len() == length && complexity_ok(p@),
            r matches Err(e) ==> (e == VaultError::Validation && !(8 <= length <= 64)) || (e
                == VaultError::Crypto && 8 <= length <= 64),
    {
        if length < 8 || length > 64 {
            return Err(VaultError::Validation);
        }
        let mut attempt: u32 = 0;
        while attempt < MAX_ATTEMPTS
            invariant
                8 <= length <= 64,
            decreases MAX_ATTEMPTS - attempt,
        {
            let bytes = match random_bytes(2 * length) {
                Ok(v) => v,
                Err(_) => {
                    return Err(VaultError::Crypto);
                },
            };
            let mut candidate = String::new();
            let mut taken: usize = 0;
            let mut i: usize = 0;
            while i < bytes.len() && taken < length
                invariant
                    taken == candidate@.len(),
                    0 <= taken <= length,
                    0 <= i <= bytes@.len(),
                    8 <= length <= 64,
                decreases bytes@.len() - i,
            {
                let b = bytes[i];
                if b < REJECTION_BOUND {
                    string_push_char(&mut candidate, charset_char(b % CHARSET_LEN));
                    taken += 1;
                }
                i += 1;
            }
            if taken == length {
                if Self::is_valid_password(candidate.as_str()) {
                    return Ok(candidate);
                }
            }
            attempt += 1;
        }
        Err(VaultError::Crypto)
    }

    /// True only if the password holds at least one lowercase letter, one
    /// uppercase letter, one digit, and one character outside those three
    /// classes (classes taken over ASCII).
    pub fn is_valid_password(password: &str) -> (r: bool)
        ensures
            r == complexity_ok(password@),
    {
        let len = password.unicode_len();
        let mut has_lower = false;
        let mut has_upper = false;
        let mut has_digit = false;
        let mut has_special = false;
        let mut i: usize = 0;
        while i < len
            invariant
                len == password@.len(),
                0 <= i <= len,
                has_lower == exists|k: int| 0 <= k < i && is_lower_char(#[trigger] password@[k]),
                has_upper == exists|k: int| 0 <= k < i && is_upper_char(#[trigger] password@[k]),
                has_digit == exists|k: int| 0 <= k < i && is_digit_char(#[trigger] password@[k]),
                has_special == exists|k: int|
                    0 <= k < i && is_special_char(#[trigger] password@[k]),
            decreases len - i,
        {
            let u = password.get_char(i) as u32;
            if 97 <= u && u <= 122 {
                has_lower = true;
            } else if 65 <= u && u <= 90 {
                has_upper = true;
            } else if 48 <= u && u <= 57 {
                has_digit = true;
            } else {
                has_special = true;
            }
            i += 1;
        }
        has_lower && has_upper && has_digit && has_special
    }

    /// True only if the text parses as an integer in [8, 64].
    pub fn is_valid_password_length(length: &str) -> (r: bool)
        ensures
            r == valid_length_input(length@),
    {
        let len = length.unicode_len();
        let mut start: usize = 0;
        if len > 0 && length.get_char(0) == '+' {
            start = 1;
        }
        let ghost digits = if length@.len() > 0 && length@[0] == '+' {
            length@.skip(1)
        } else {
            length@
        };
        proof {
            assert(digits =~= length@.subrange(start as int, len as int));
        }
        if start >= len {
            return false;
        }
        let mut value: u32 = 0;
        let mut i: usize = start;
        while i < len
            invariant
                start <= i <= len,
                len == length@.len(),
                start < len,
                start <= 1,
                digits == length@.subrange(start as int, len as int),
                digits == (if length@.len() > 0 && length@[0] == '+' {
                    length@.skip(1)
                } else {
                    length@
                }),
                forall|k: int| start <= k < i ==> is_digit_char(#[trigger] length@[k]),
                value <= 649,
                dec_value(length@.subrange(start as int, i as int)) <= 64 ==> value == dec_value(
                    length@.subrange(start as int, i as int),
                ),
                dec_value(length@.subrange(start as int, i as int)) > 64 ==> value > 64,
            decreases len - i,
        {
            let u = length.get_char(i) as u32;
            if u < 48 || u > 57 {
                proof {
                    assert(digits[i - start as int] == length@[i as int]);
                    assert(!is_digit_seq(digits));
                }
                return false;
            }
            proof {
                let prefix = length@.subrange(start as int, i as int);
                let next = length@.subrange(start as int, i + 1);
                assert(next =~= prefix.push(length@[i as int]));
                lemma_dec_value_push(prefix, length@[i as int]);
            }
            if value <= 64 {
                value = value * 10 + (u - 48);
            }
            i += 1;
        }
        proof {
            assert forall|j: int| 0 <= j < digits.len() implies is_digit_char(
                #[trigger] digits[j],
            ) by {
                assert(digits[j] == length@[start + j]);
            }
            assert(dec_value(digits) == dec_value(length@.subrange(start as int, len as int)));
        }
        8 <= value && value <= 64
    }
}

} // verus!
