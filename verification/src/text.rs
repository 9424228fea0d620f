//! Numbers and digests as text.

use vstd::prelude::*;

use crate::primitives::B256;

verus! {

/// The character of a digit below 16, in lower case.
pub open spec fn digit_char(digit: int) -> char {
    if digit == 0 {
        '0'
    } else if digit == 1 {
        '1'
    } else if digit == 2 {
        '2'
    } else if digit == 3 {
        '3'
    } else if digit == 4 {
        '4'
    } else if digit == 5 {
        '5'
    } else if digit == 6 {
        '6'
    } else if digit == 7 {
        '7'
    } else if digit == 8 {
        '8'
    } else if digit == 9 {
        '9'
    } else if digit == 10 {
        'a'
    } else if digit == 11 {
        'b'
    } else if digit == 12 {
        'c'
    } else if digit == 13 {
        'd'
    } else if digit == 14 {
        'e'
    } else {
        'f'
    }
}

/// A number in decimal, without leading zeros.
pub open spec fn decimal(n: nat) -> Seq<char>
    decreases n,
{
    if n < 10 {
        seq![digit_char(n as int)]
    } else {
        decimal(n / 10).push(digit_char((n % 10) as int))
    }
}

/// A number in hexadecimal, without leading zeros.
pub open spec fn hexadecimal(n: nat) -> Seq<char>
    decreases n,
{
    if n < 16 {
        seq![digit_char(n as int)]
    } else {
        hexadecimal(n / 16).push(digit_char((n % 16) as int))
    }
}

/// A byte string in hexadecimal, two characters a byte.
pub open spec fn hex(bytes: Seq<u8>) -> Seq<char> {
    Seq::new(
        2 * bytes.len(),
        |i: int|
            if i % 2 == 0 {
                digit_char((bytes[i / 2] / 16) as int)
            } else {
                digit_char((bytes[i / 2] % 16) as int)
            },
    )
}

/// A digest as it is printed: in hexadecimal, after `0x`.
pub open spec fn digest_text(digest: B256) -> Seq<char> {
    seq!['0', 'x'] + hex(digest@)
}

/// Formats a number with the `Display` of `usize`: the number in decimal, without leading zeros.
#[verifier::external_body]
pub(crate) fn number_string(n: usize) -> (r: String)
    ensures
        r@ == decimal(n as nat),
{
    format!("{n}")
}

/// Formats a number with the `LowerHex` of `u64`: the number in lower case hexadecimal, without
/// leading zeros and without a prefix.
#[verifier::external_body]
pub(crate) fn hexadecimal_string(n: u64) -> (r: String)
    ensures
        r@ == hexadecimal(n as nat),
{
    format!("{n:x}")
}

/// Formats a digest with the `Display` of `alloy_primitives::B256`: all of its bytes in lower case
/// hexadecimal, after `0x`.
#[verifier::external_body]
pub(crate) fn digest_string(digest: &B256) -> (r: String)
    ensures
        r@ == digest_text(*digest),
{
    format!("{}", alloy_primitives::B256::new(*digest))
}

/// Two digests that are printed alike are equal.
pub proof fn law_digest_text_injective(a: B256, b: B256)
    requires
        digest_text(a) == digest_text(b),
    ensures
        a == b,
{
    assert(digest_text(a).skip(2) =~= hex(a@));
    assert(digest_text(b).skip(2) =~= hex(b@));
    assert forall|i: int| 0 <= i < 32 implies a@[i] == b@[i] by {
        assert(hex(a@)[2 * i] == hex(b@)[2 * i]);
        assert(hex(a@)[2 * i + 1] == hex(b@)[2 * i + 1]);
        assert((2 * i) % 2 == 0 && (2 * i) / 2 == i);
        assert((2 * i + 1) % 2 == 1 && (2 * i + 1) / 2 == i);
    }
    assert(a =~= b);
}

} // verus!
