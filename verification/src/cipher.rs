//! The two outside primitives that key recovery rests on: hexadecimal
//! decoding from the `hex` crate and the AES-128 block cipher from the `aes`
//! crate. Their contracts are believed, not proved.

use vstd::prelude::*;
use aes::cipher::generic_array::GenericArray;
use aes::cipher::{BlockDecrypt, KeyInit};
use aes::Aes128;

verus! {

/// The error type of the `hex` crate.
#[verifier::external_type_specification]
#[verifier::external_body]
pub struct ExFromHexError(hex::FromHexError);

/// `c` is one of `0`-`9`, `a`-`f`, `A`-`F`.
pub open spec fn is_hex_digit(c: char) -> bool {
    ||| 0x30 <= c as int <= 0x39
    ||| 0x41 <= c as int <= 0x46
    ||| 0x61 <= c as int <= 0x66
}

/// The value of the hexadecimal digit `c`.
pub open spec fn hex_digit_value(c: char) -> int {
    if 0x30 <= c as int <= 0x39 {
        c as int - 0x30
    } else if 0x41 <= c as int <= 0x46 {
        c as int - 0x41 + 10
    } else {
        c as int - 0x61 + 10
    }
}

/// `text` is an even number of hexadecimal digits.
pub open spec fn is_hex_text(text: Seq<char>) -> bool {
    &&& text.len() % 2 == 0
    &&& forall|i: int| 0 <= i < text.len() ==> is_hex_digit(#[trigger] text[i])
}

/// The bytes that `text` spells, two digits to a byte, the high digit first.
pub open spec fn hex_decoded(text: Seq<char>) -> Seq<u8> {
    Seq::new(
        text.len() / 2,
        |i: int| (16 * hex_digit_value(text[2 * i]) + hex_digit_value(text[2 * i + 1])) as u8,
    )
}

/// What AES-128 decryption of the 16-byte `block` under the 16-byte `key`
/// gives.
pub uninterp spec fn aes128_decrypted_block(key: Seq<u8>, block: Seq<u8>) -> Seq<u8>;

/// Calls `hex::decode`.
///
/// Believed: it succeeds exactly on an even number of hexadecimal digits of
/// either case, and then returns one byte for each pair of digits, the first
/// digit of a pair being the high half. The crate reads the text's bytes; a
/// character outside ASCII is spelt with bytes above `0x7f`, none of which is
/// a digit, so such a text fails as the contract says.
#[verifier::external_body]
pub(crate) fn hex_decode(text: &str) -> (decoded: Result<Vec<u8>, hex::FromHexError>)
    ensures
        decoded is Ok <==> is_hex_text(text@),
        decoded matches Ok(bytes) ==> bytes@ == hex_decoded(text@),
{
    hex::decode(text)
}

/// Sets up `aes::Aes128` with `key` through `KeyInit::new` and decrypts one
/// block in place with `BlockDecrypt::decrypt_block`.
///
/// Believed: the result is a function of the key and the block alone, and is
/// 16 bytes long. Both conversions from a slice to the crate's fixed-size
/// arrays panic on another length, so both lengths are required.
#[verifier::external_body]
pub(crate) fn aes128_decrypt_block(key: &[u8], block: &[u8]) -> (plain: Vec<u8>)
    requires
        key@.len() == 16,
        block@.len() == 16,
    ensures
        plain@ == aes128_decrypted_block(key@, block@),
        plain@.len() == 16,
{
    let cipher = Aes128::new(GenericArray::from_slice(key));
    let mut buffer = GenericArray::clone_from_slice(block);
    cipher.decrypt_block(&mut buffer);
    buffer.to_vec()
}

} // verus!
