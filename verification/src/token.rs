//! Identity tokens: the 128 bits of a random UUID, and the text that is
//! sent for them.

use crate::base36::symbol;
use uuid::Uuid;
use vstd::prelude::*;

verus! {

/// 16 to the power `k`.
pub open spec fn pow16(k: nat) -> nat
    decreases k,
{
    if k == 0 {
        1
    } else {
        16 * pow16((k - 1) as nat)
    }
}

/// The hexadecimal digit of `id` at place `k`, where place 0 is the most
/// significant of the 32.
pub open spec fn hex_digit(id: u128, k: int) -> nat {
    ((id as nat) / pow16((31 - k) as nat)) % 16
}

/// The text of a token: its 32 hexadecimal digits in lower case, most
/// significant first, in groups of 8, 4, 4, 4 and 12 with a hyphen between
/// them.
pub open spec fn id_text(id: u128) -> Seq<char> {
    Seq::new(
        36,
        |i: int|
            if i == 8 || i == 13 || i == 18 || i == 23 {
                '-'
            } else if i < 8 {
                symbol(hex_digit(id, i))
            } else if i < 13 {
                symbol(hex_digit(id, i - 1))
            } else if i < 18 {
                symbol(hex_digit(id, i - 2))
            } else if i < 23 {
                symbol(hex_digit(id, i - 3))
            } else {
                symbol(hex_digit(id, i - 4))
            },
    )
}

/// Whether `id` has the form of a random token: digit 12, the version, is
/// 4, and the two highest bits of digit 16, the variant, are binary 10.
pub open spec fn is_random_id(id: u128) -> bool {
    hex_digit(id, 12) == 4 && hex_digit(id, 16) / 4 == 2
}

/// `Uuid::new_v4` of uuid, as a number: 128 bits of which 122 are random
/// and the others say that they are. uuid panics where the system gives it
/// no random bytes.
#[verifier::external_body]
pub(crate) fn new_v4() -> (id: u128)
    ensures
        is_random_id(id),
{
    Uuid::new_v4().as_u128()
}

/// `Uuid::to_string` of uuid, on the UUID whose 128 bits are `id`: the
/// hyphenated form in lower case.
#[verifier::external_body]
pub(crate) fn hyphenated(id: u128) -> (text: String)
    ensures
        text@ == id_text(id),
{
    Uuid::from_u128(id).to_string()
}

} // verus!
