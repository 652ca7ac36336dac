//! The decoder: from the bytes of a container to the bytes of its audio
//! track.

use vstd::prelude::*;
use vstd::slice::slice_subrange;
use crate::container::{assembled, layout_of, lemma_assembled_layout, parse_container, parts_fit};
use crate::error::{outcome_view, DecodeError};
use crate::key::{recover_key, recovered_key};
use crate::keybox::{key_box_of, KeyBox};
use crate::stream::{decode_audio, lemma_unmasked_twice, unmasked};

verus! {

/// The audio track of `container`, or the first fault met: a structural
/// fault of the layout, else a key that is too short.
pub open spec fn decoded(container: Seq<u8>) -> Result<Seq<u8>, DecodeError> {
    match layout_of(container) {
        Err(e) => Err(e),
        Ok(layout) => match recovered_key(layout.key.bytes(container)) {
            Err(e) => Err(e),
            Ok(key) => Ok(unmasked(layout.audio.bytes(container), key_box_of(key))),
        },
    }
}

/// Decoding undoes encoding. Where the key section `key_blob` holds the key
/// material `key`, the container assembled around the audio masked with the
/// keystream of `key` decodes to that audio. The audio is not empty: a
/// container without a payload is refused.
pub proof fn lemma_round_trip(
    version: Seq<u8>,
    key_blob: Seq<u8>,
    metadata: Seq<u8>,
    gap: Seq<u8>,
    image: Seq<u8>,
    audio: Seq<u8>,
    key: Seq<u8>,
)
    requires
        parts_fit(version, key_blob, metadata, gap, image, audio),
        recovered_key(key_blob) == Ok::<Seq<u8>, DecodeError>(key),
    ensures
        decoded(
            assembled(
                version,
                key_blob,
                metadata,
                gap,
                image,
                unmasked(audio, key_box_of(key)),
            ),
        ) == Ok::<Seq<u8>, DecodeError>(audio),
{
    let payload = unmasked(audio, key_box_of(key));
    lemma_assembled_layout(version, key_blob, metadata, gap, image, payload);
    lemma_unmasked_twice(audio, key_box_of(key));
}

/// Decodes a container.
///
/// The layout is validated in full before the key is recovered, so a
/// structural fault is reported before a key that is too short. On success
/// the audio is as long as the container's payload.
pub fn decode(container: &[u8]) -> (audio: Result<Vec<u8>, DecodeError>)
    ensures
        outcome_view(audio) == decoded(container@),
        audio matches Ok(bytes) ==> layout_of(container@) matches Ok(layout) && bytes@.len()
            == layout.audio.length,
{
    let layout = match parse_container(container) {
        Ok(layout) => layout,
        Err(e) => { return Err(e); },
    };
    let key_blob = slice_subrange(
        container,
        layout.key.offset,
        layout.key.offset + layout.key.length,
    );
    let key = match recover_key(key_blob) {
        Ok(key) => key,
        Err(e) => { return Err(e); },
    };
    let key_box = KeyBox::generate(key.as_slice());
    let payload = slice_subrange(container, layout.audio.offset, container.len());
    Ok(decode_audio(payload, &key_box))
}

} // verus!
