//! The stream decoder: every payload byte is combined by exclusive or with
//! the keystream byte of its position.

use vstd::prelude::*;
use crate::keybox::{keystream_byte, KeyBox};

verus! {

/// `payload` with the keystream of `table` applied: byte `i` is
/// `payload[i] ^ keystream_byte(table, i)`.
pub open spec fn unmasked(payload: Seq<u8>, table: Seq<u8>) -> Seq<u8> {
    Seq::new(payload.len(), |i: int| payload[i] ^ keystream_byte(table, i))
}

/// Applies the keystream of `key_box` to `payload`.
///
/// The output has the payload's length, and each of its bytes depends on the
/// payload byte at the same position and on the key box alone.
pub fn decode_audio(payload: &[u8], key_box: &KeyBox) -> (audio: Vec<u8>)
    ensures
        audio@ == unmasked(payload@, key_box@),
{
    let mut audio: Vec<u8> = Vec::with_capacity(payload.len());
    let mut i: usize = 0;
    while i < payload.len()
        invariant
            i <= payload@.len(),
            audio@.len() == i,
            forall|k: int| 0 <= k < i ==> audio@[k] == payload@[k] ^ keystream_byte(key_box@, k),
        decreases payload@.len() - i,
    {
        audio.push(payload[i] ^ key_box.keystream_at(i));
        i += 1;
    }
    audio
}

/// Applying one keystream twice gives the payload back.
pub proof fn lemma_unmasked_twice(payload: Seq<u8>, table: Seq<u8>)
    ensures
        unmasked(unmasked(payload, table), table) == payload,
{
    let once = unmasked(payload, table);
    let twice = unmasked(once, table);
    assert forall|i: int| 0 <= i < payload.len() implies twice[i] == payload[i] by {
        let p = payload[i];
        let k = keystream_byte(table, i);
        assert((p ^ k) ^ k == p) by (bit_vector);
    }
}

/// Decoding one payload twice with one key box gives the same audio.
pub proof fn lemma_decode_audio_repeatable(
    payload: Seq<u8>,
    table: Seq<u8>,
    first: Vec<u8>,
    second: Vec<u8>,
)
    requires
        first@ == unmasked(payload, table),
        second@ == unmasked(payload, table),
    ensures
        first@ == second@,
{
}

} // verus!
