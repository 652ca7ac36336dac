//! Key recovery: from the key section of a container to the key material
//! that the key box is scheduled from.

use vstd::prelude::*;
use vstd::slice::slice_subrange;
use crate::cipher::{aes128_decrypt_block, aes128_decrypted_block, hex_decode};
use crate::error::{outcome_view, DecodeError};

verus! {

/// The byte that every byte of the key section is masked with.
pub const KEY_MASK: u8 = 0x64;

/// Block length of the cipher.
pub const BLOCK_LEN: usize = 16;

/// Length of the tag `neteasecloudmusic` in front of the key material.
pub const KEY_PREFIX_LEN: usize = 17;

/// The cipher key of the format in hexadecimal digits.
pub const CORE_KEY_HEX: &'static str = "687A4852416D736F356B496E62617857";

/// The cipher key of the format, ASCII `hzHRAmso5kInbaxW`.
pub open spec fn core_key() -> Seq<u8> {
    seq![
        0x68u8, 0x7Au8, 0x48u8, 0x52u8, 0x41u8, 0x6Du8, 0x73u8, 0x6Fu8,
        0x35u8, 0x6Bu8, 0x49u8, 0x6Eu8, 0x62u8, 0x61u8, 0x78u8, 0x57u8,
    ]
}

/// `blob` with the mask taken off every byte.
pub open spec fn mask_removed(blob: Seq<u8>) -> Seq<u8> {
    Seq::new(blob.len(), |i: int| blob[i] ^ 0x64u8)
}

/// The least multiple of 16 that is not below `len`.
pub open spec fn padded_len(len: nat) -> nat {
    if len % 16 == 0 {
        len
    } else {
        (len + 16 - len % 16) as nat
    }
}

/// `data` followed by zero bytes up to the next multiple of 16.
pub open spec fn zero_padded(data: Seq<u8>) -> Seq<u8> {
    Seq::new(
        padded_len(data.len()),
        |i: int|
            if i < data.len() {
                data[i]
            } else {
                0u8
            },
    )
}

/// `data` with every full 16-byte block decrypted on its own under `key`;
/// bytes after the last full block stay as they are.
pub open spec fn ecb_decrypted(key: Seq<u8>, data: Seq<u8>) -> Seq<u8> {
    Seq::new(
        data.len(),
        |i: int|
            if 16 * (i / 16) + 16 <= data.len() {
                aes128_decrypted_block(key, data.subrange(16 * (i / 16), 16 * (i / 16) + 16))[i
                    % 16]
            } else {
                data[i]
            },
    )
}

/// Number of trailing bytes that the last byte of `data` declares as
/// padding: its value where that is from 1 to 16 and no more than the
/// length of `data`, else none.
pub open spec fn padding_len(data: Seq<u8>) -> nat {
    if data.len() > 0 && 1 <= data.last() <= 16 && data.last() <= data.len() {
        data.last() as nat
    } else {
        0
    }
}

/// `data` without its declared padding.
pub open spec fn padding_removed(data: Seq<u8>) -> Seq<u8> {
    data.take(data.len() - padding_len(data))
}

/// The key material in a decrypted key section: what follows the 17-byte tag
/// once the padding is gone.
pub open spec fn key_material_of(decrypted: Seq<u8>) -> Result<Seq<u8>, DecodeError> {
    let body = padding_removed(decrypted);
    if body.len() < 17 {
        Err(DecodeError::KeyTooShort)
    } else {
        Ok(body.skip(17))
    }
}

/// The key material that the key section `blob` holds.
pub open spec fn recovered_key(blob: Seq<u8>) -> Result<Seq<u8>, DecodeError> {
    key_material_of(ecb_decrypted(core_key(), zero_padded(mask_removed(blob))))
}

/// Recovering the key of one key section twice gives one outcome: the same
/// key material, or the same failure.
pub proof fn lemma_recover_key_repeatable(
    blob: Seq<u8>,
    first: Result<Vec<u8>, DecodeError>,
    second: Result<Vec<u8>, DecodeError>,
)
    requires
        outcome_view(first) == recovered_key(blob),
        outcome_view(second) == recovered_key(blob),
    ensures
        outcome_view(first) == outcome_view(second),
{
}

/// A decrypted key section that keeps fewer than 17 bytes once its padding
/// is gone holds no key material.
pub proof fn lemma_short_key_rejected(decrypted: Seq<u8>)
    requires
        padding_removed(decrypted).len() < 17,
    ensures
        key_material_of(decrypted) == Err::<Seq<u8>, DecodeError>(DecodeError::KeyTooShort),
{
}

/// A key section of at most one block holds no key material, whatever the
/// cipher makes of it: the block has room for 16 bytes, the tag alone takes 17.
pub proof fn lemma_one_block_key_rejected(blob: Seq<u8>)
    requires
        blob.len() <= 16,
    ensures
        recovered_key(blob) == Err::<Seq<u8>, DecodeError>(DecodeError::KeyTooShort),
{
    let decrypted = ecb_decrypted(core_key(), zero_padded(mask_removed(blob)));
    lemma_short_key_rejected(decrypted);
}

/// Takes the mask off every byte of `blob`.
pub fn remove_mask(blob: &[u8]) -> (plain: Vec<u8>)
    ensures
        plain@ == mask_removed(blob@),
{
    let mut plain: Vec<u8> = Vec::with_capacity(blob.len());
    let mut i: usize = 0;
    while i < blob.len()
        invariant
            i <= blob@.len(),
            plain@.len() == i,
            forall|k: int| 0 <= k < i ==> plain@[k] == blob@[k] ^ 0x64u8,
        decreases blob@.len() - i,
    {
        plain.push(blob[i] ^ KEY_MASK);
        i += 1;
    }
    plain
}

/// Appends zero bytes to `data` up to the next multiple of 16.
pub fn pad_with_zeros(data: &mut Vec<u8>)
    ensures
        final(data)@ == zero_padded(old(data)@),
{
    let missing: usize = (BLOCK_LEN - data.len() % BLOCK_LEN) % BLOCK_LEN;
    let mut added: usize = 0;
    while added < missing
        invariant
            added <= missing,
            missing == (16 - old(data)@.len() % 16) % 16,
            data@.len() == old(data)@.len() + added,
            forall|k: int| 0 <= k < old(data)@.len() ==> data@[k] == old(data)@[k],
            forall|k: int| old(data)@.len() <= k < data@.len() ==> data@[k] == 0u8,
        decreases missing - added,
    {
        data.push(0);
        added += 1;
    }
}

/// Decrypts every full 16-byte block of `data` on its own under `key`;
/// bytes after the last full block are copied.
///
/// Fails with `CipherSetupFailure` exactly when `key` is not 16 bytes long.
pub fn decrypt_blocks(key: &[u8], data: &[u8]) -> (plain: Result<Vec<u8>, DecodeError>)
    ensures
        outcome_view(plain) == if key@.len() == 16 {
            Ok::<Seq<u8>, DecodeError>(ecb_decrypted(key@, data@))
        } else {
            Err::<Seq<u8>, DecodeError>(DecodeError::CipherSetupFailure)
        },
{
    if key.len() != BLOCK_LEN {
        return Err(DecodeError::CipherSetupFailure);
    }
    let mut plain: Vec<u8> = Vec::with_capacity(data.len());
    let mut start: usize = 0;
    while data.len() - start >= BLOCK_LEN
        invariant
            key@.len() == 16,
            start <= data@.len(),
            start % 16 == 0,
            plain@.len() == start,
            forall|k: int| 0 <= k < start ==> plain@[k] == ecb_decrypted(key@, data@)[k],
        decreases data@.len() - start,
    {
        let block = slice_subrange(data, start, start + BLOCK_LEN);
        let decrypted = aes128_decrypt_block(key, block);
        let mut j: usize = 0;
        while j < BLOCK_LEN
            invariant
                j <= 16,
                start % 16 == 0,
                start + 16 <= data@.len(),
                decrypted@.len() == 16,
                decrypted@ == aes128_decrypted_block(
                    key@,
                    data@.subrange(start as int, start + 16),
                ),
                plain@.len() == start + j,
                forall|k: int|
                    0 <= k < start + j ==> plain@[k] == ecb_decrypted(key@, data@)[k],
            decreases 16 - j,
        {
            proof {
                let k = start + j;
            }
            plain.push(decrypted[j]);
            j += 1;
        }
        start += BLOCK_LEN;
    }
    let tail: usize = start;
    while start < data.len()
        invariant
            tail <= start <= data@.len(),
            tail % 16 == 0,
            data@.len() - tail < 16,
            plain@.len() == start,
            forall|k: int| 0 <= k < start ==> plain@[k] == ecb_decrypted(key@, data@)[k],
        decreases data@.len() - start,
    {
        plain.push(data[start]);
        start += 1;
    }
    assert(plain@ =~= ecb_decrypted(key@, data@));
    Ok(plain)
}

/// Removes the padding that the last byte of `data` declares.
pub fn strip_padding(data: &mut Vec<u8>)
    ensures
        final(data)@ == padding_removed(old(data)@),
{
    let len: usize = data.len();
    if len > 0 {
        let declared: usize = data[len - 1] as usize;
        if 1 <= declared && declared <= BLOCK_LEN && declared <= len {
            data.truncate(len - declared);
        }
    }
}

/// Takes the key material out of a decrypted key section: removes the
/// padding, then the 17-byte tag.
///
/// Fails with `KeyTooShort` exactly when fewer than 17 bytes are left once
/// the padding is gone.
pub fn extract_key_material(decrypted: Vec<u8>) -> (found: Result<Vec<u8>, DecodeError>)
    ensures
        outcome_view(found) == key_material_of(decrypted@),
{
    let mut body = decrypted;
    strip_padding(&mut body);
    if body.len() < KEY_PREFIX_LEN {
        return Err(DecodeError::KeyTooShort);
    }
    let material = body.split_off(KEY_PREFIX_LEN);
    Ok(material)
}

/// Decodes the cipher key of the format from its hexadecimal text.
///
/// Never fails: the text is 32 hexadecimal digits.
pub fn load_core_key() -> (key: Result<Vec<u8>, DecodeError>)
    ensures
        outcome_view(key) == Ok::<Seq<u8>, DecodeError>(core_key()),
{
    proof {
        reveal_strlit("687A4852416D736F356B496E62617857");
    }
    match hex_decode(CORE_KEY_HEX) {
        Ok(key) => {
            assert(key@ =~= core_key());
            Ok(key)
        },
        Err(_) => Err(DecodeError::CipherSetupFailure),
    }
}

/// Recovers the key material from the key section `blob`: takes the mask
/// off, pads with zeros to full blocks, decrypts each block under the cipher
/// key of the format, removes the padding and the tag.
///
/// Fails with `KeyTooShort` exactly when the decrypted section holds fewer
/// than 17 bytes without its padding, and in no other way.
pub fn recover_key(blob: &[u8]) -> (found: Result<Vec<u8>, DecodeError>)
    ensures
        outcome_view(found) == recovered_key(blob@),
{
    let core_key = match load_core_key() {
        Ok(key) => key,
        Err(e) => { return Err(e); },
    };
    let mut masked_off = remove_mask(blob);
    pad_with_zeros(&mut masked_off);
    match decrypt_blocks(core_key.as_slice(), masked_off.as_slice()) {
        Ok(decrypted) => extract_key_material(decrypted),
        Err(e) => Err(e),
    }
}

} // verus!
