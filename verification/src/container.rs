//! The container's layout: a signature, a version, and three length-prefixed
//! sections, followed by the audio payload.

use vstd::prelude::*;
use crate::error::{DecodeError, SectionKind};

verus! {

/// Length of the signature.
pub const SIGNATURE_LEN: usize = 8;

/// Length of the signature and the two version bytes after it.
pub const HEADER_LEN: usize = 10;

/// Length of the little-endian length field in front of each section.
pub const LENGTH_FIELD_LEN: usize = 4;

/// Length of the checksum (4 bytes) and the gap (5 bytes) between the
/// metadata and the image sections. Neither is inspected.
pub const GAP_LEN: usize = 9;

/// The container signature, ASCII `CTENFDAM`.
pub const SIGNATURE: [u8; 8] = [0x43, 0x54, 0x45, 0x4E, 0x46, 0x44, 0x41, 0x4D];

/// A run of bytes inside a container.
#[derive(Debug, Clone, Copy, PartialEq, Eq, Structural)]
pub struct Section {
    pub offset: usize,
    pub length: usize,
}

impl Section {
    /// The offset just past the section.
    pub open spec fn end(self) -> int {
        self.offset + self.length
    }

    /// The section's bytes in `data`.
    pub open spec fn bytes(self, data: Seq<u8>) -> Seq<u8> {
        data.subrange(self.offset as int, self.end())
    }
}

/// Where the four sections of a container lie.
#[derive(Debug, Clone, Copy, PartialEq, Eq, Structural)]
pub struct Layout {
    pub key: Section,
    pub metadata: Section,
    pub image: Section,
    pub audio: Section,
}

/// The signature as a sequence.
pub open spec fn signature() -> Seq<u8> {
    seq![0x43u8, 0x54u8, 0x45u8, 0x4Eu8, 0x46u8, 0x44u8, 0x41u8, 0x4Du8]
}

/// `data` begins with the signature.
pub open spec fn has_signature(data: Seq<u8>) -> bool {
    data.len() >= 8 && data.subrange(0, 8) =~= signature()
}

/// The unsigned 32-bit little-endian number in the four bytes at `at`.
pub open spec fn le_u32_at(data: Seq<u8>, at: int) -> int {
    data[at] + data[at + 1] * 0x100 + data[at + 2] * 0x1_0000 + data[at + 3] * 0x100_0000
}

/// The length-prefixed section whose length field begins at `at`.
pub open spec fn section_at(data: Seq<u8>, at: int, which: SectionKind) -> Result<
    Section,
    DecodeError,
> {
    if data.len() - at < 4 {
        Err(DecodeError::MissingLengthField { which })
    } else if data.len() - (at + 4) < le_u32_at(data, at) {
        Err(DecodeError::TruncatedSection { which })
    } else {
        Ok(Section { offset: (at + 4) as usize, length: le_u32_at(data, at) as usize })
    }
}

/// The layout of `data`, or the first structural fault met on the way from
/// the signature to the audio payload.
pub open spec fn layout_of(data: Seq<u8>) -> Result<Layout, DecodeError> {
    if data.len() < 10 {
        Err(DecodeError::TooSmall)
    } else if !has_signature(data) {
        Err(DecodeError::InvalidSignature)
    } else {
        match section_at(data, 10, SectionKind::Key) {
            Err(e) => Err(e),
            Ok(key) => match section_at(data, key.end(), SectionKind::Metadata) {
                Err(e) => Err(e),
                Ok(metadata) => match section_at(data, metadata.end() + 9, SectionKind::Image) {
                    Err(e) => Err(e),
                    Ok(image) => if image.end() >= data.len() {
                        Err(DecodeError::NoAudioData)
                    } else {
                        Ok(
                            Layout {
                                key,
                                metadata,
                                image,
                                audio: Section {
                                    offset: image.end() as usize,
                                    length: (data.len() - image.end()) as usize,
                                },
                            },
                        )
                    },
                },
            },
        }
    }
}

/// The sections of `layout` lie one after another, each behind its length
/// field, and the audio section is not empty and ends where a container of
/// `len` bytes ends.
pub open spec fn layout_fits(layout: Layout, len: int) -> bool {
    &&& layout.key.offset == 14
    &&& layout.metadata.offset == layout.key.end() + 4
    &&& layout.image.offset == layout.metadata.end() + 9 + 4
    &&& layout.audio.offset == layout.image.end()
    &&& layout.audio.length > 0
    &&& layout.audio.end() == len
}

/// Every layout that a container has fits the container.
pub proof fn lemma_layout_fits(data: Seq<u8>)
    requires
        data.len() <= usize::MAX,
    ensures
        layout_of(data) matches Ok(layout) ==> layout_fits(layout, data.len() as int),
{
}

/// A container that ends inside one of its three sections is reported as
/// truncated in that section: where `data` has the layout `layout` and `cut`
/// lies inside a section, whether at its first byte or one byte before its
/// end, the first `cut` bytes of `data` fail with `TruncatedSection` for that
/// section.
pub proof fn lemma_cut_inside_section(data: Seq<u8>, layout: Layout, cut: int)
    requires
        data.len() <= usize::MAX,
        layout_of(data) == Ok::<Layout, DecodeError>(layout),
    ensures
        layout.key.offset <= cut < layout.key.end() ==> layout_of(data.take(cut)) == Err::<
            Layout,
            DecodeError,
        >(DecodeError::TruncatedSection { which: SectionKind::Key }),
        layout.metadata.offset <= cut < layout.metadata.end() ==> layout_of(data.take(cut))
            == Err::<Layout, DecodeError>(
            DecodeError::TruncatedSection { which: SectionKind::Metadata },
        ),
        layout.image.offset <= cut < layout.image.end() ==> layout_of(data.take(cut)) == Err::<
            Layout,
            DecodeError,
        >(DecodeError::TruncatedSection { which: SectionKind::Image }),
{
}

/// The four bytes that spell `n` as an unsigned 32-bit little-endian number.
pub open spec fn le_u32_bytes(n: int) -> Seq<u8> {
    seq![
        (n % 0x100) as u8,
        (n / 0x100 % 0x100) as u8,
        (n / 0x1_0000 % 0x100) as u8,
        (n / 0x100_0000 % 0x100) as u8,
    ]
}

/// The container made of the signature, two version bytes, the three
/// sections behind their length fields, with the nine bytes of checksum and
/// gap in front of the image section, and the payload.
pub open spec fn assembled(
    version: Seq<u8>,
    key_blob: Seq<u8>,
    metadata: Seq<u8>,
    gap: Seq<u8>,
    image: Seq<u8>,
    payload: Seq<u8>,
) -> Seq<u8> {
    signature() + version + le_u32_bytes(key_blob.len() as int) + key_blob + le_u32_bytes(
        metadata.len() as int,
    ) + metadata + gap + le_u32_bytes(image.len() as int) + image + payload
}

/// The parts that a container is assembled from are of the lengths that the
/// format and the machine can hold, and the payload is not empty.
pub open spec fn parts_fit(
    version: Seq<u8>,
    key_blob: Seq<u8>,
    metadata: Seq<u8>,
    gap: Seq<u8>,
    image: Seq<u8>,
    payload: Seq<u8>,
) -> bool {
    &&& version.len() == 2
    &&& gap.len() == 9
    &&& key_blob.len() <= u32::MAX
    &&& metadata.len() <= u32::MAX
    &&& image.len() <= u32::MAX
    &&& payload.len() > 0
    &&& 31 + key_blob.len() + metadata.len() + image.len() + payload.len() <= usize::MAX
}

/// The layout of a container whose sections have these lengths.
pub open spec fn layout_with(key_len: nat, metadata_len: nat, image_len: nat, audio_len: nat)
    -> Layout {
    Layout {
        key: Section { offset: 14, length: key_len as usize },
        metadata: Section { offset: (18 + key_len) as usize, length: metadata_len as usize },
        image: Section {
            offset: (31 + key_len + metadata_len) as usize,
            length: image_len as usize,
        },
        audio: Section {
            offset: (31 + key_len + metadata_len + image_len) as usize,
            length: audio_len as usize,
        },
    }
}

/// A length field reads as the number it spells.
proof fn lemma_length_field_reads_back(data: Seq<u8>, at: int, n: int)
    requires
        0 <= n <= u32::MAX,
        0 <= at,
        at + 4 <= data.len(),
        data.subrange(at, at + 4) == le_u32_bytes(n),
    ensures
        le_u32_at(data, at) == n,
{
    let field = data.subrange(at, at + 4);
    assert(data[at] == field[0] && data[at + 1] == field[1]);
    assert(data[at + 2] == field[2] && data[at + 3] == field[3]);
}

/// Where the parts of an assembled container lie in it.
proof fn lemma_assembled_parts(
    version: Seq<u8>,
    key_blob: Seq<u8>,
    metadata: Seq<u8>,
    gap: Seq<u8>,
    image: Seq<u8>,
    payload: Seq<u8>,
)
    requires
        version.len() == 2,
        gap.len() == 9,
    ensures
        ({
            let c = assembled(version, key_blob, metadata, gap, image, payload);
            let k = key_blob.len() as int;
            let m = metadata.len() as int;
            let g = image.len() as int;
            &&& c.len() == 31 + k + m + g + payload.len()
            &&& c.subrange(0, 8) == signature()
            &&& c.subrange(10, 14) == le_u32_bytes(k)
            &&& c.subrange(14, 14 + k) == key_blob
            &&& c.subrange(14 + k, 18 + k) == le_u32_bytes(m)
            &&& c.subrange(18 + k, 18 + k + m) == metadata
            &&& c.subrange(27 + k + m, 31 + k + m) == le_u32_bytes(g)
            &&& c.subrange(31 + k + m, 31 + k + m + g) == image
            &&& c.subrange(31 + k + m + g, c.len() as int) == payload
        }),
{
}

/// Parsing undoes assembling: an assembled container has the layout of its
/// parts' lengths, and each section holds the part it was assembled from.
pub proof fn lemma_assembled_layout(
    version: Seq<u8>,
    key_blob: Seq<u8>,
    metadata: Seq<u8>,
    gap: Seq<u8>,
    image: Seq<u8>,
    payload: Seq<u8>,
)
    requires
        parts_fit(version, key_blob, metadata, gap, image, payload),
    ensures
        ({
            let container = assembled(version, key_blob, metadata, gap, image, payload);
            let layout = layout_with(key_blob.len(), metadata.len(), image.len(), payload.len());
            &&& layout_of(container) == Ok::<Layout, DecodeError>(layout)
            &&& layout.key.bytes(container) == key_blob
            &&& layout.metadata.bytes(container) == metadata
            &&& layout.image.bytes(container) == image
            &&& layout.audio.bytes(container) == payload
        }),
{
    let container = assembled(version, key_blob, metadata, gap, image, payload);
    let k = key_blob.len() as int;
    let m = metadata.len() as int;
    lemma_assembled_parts(version, key_blob, metadata, gap, image, payload);
    lemma_length_field_reads_back(container, 10, k);
    lemma_length_field_reads_back(container, 14 + k, m);
    lemma_length_field_reads_back(container, 27 + k + m, image.len() as int);
}

/// Reads the little-endian length field at `at`.
fn read_le_u32(data: &[u8], at: usize) -> (value: u32)
    requires
        at + 4 <= data@.len(),
    ensures
        value == le_u32_at(data@, at as int),
{
    let b0: u32 = data[at] as u32;
    let b1: u32 = data[at + 1] as u32;
    let b2: u32 = data[at + 2] as u32;
    let b3: u32 = data[at + 3] as u32;
    b0 + b1 * 0x100 + b2 * 0x1_0000 + b3 * 0x100_0000
}

/// Reads the length field at `at` and checks that the section it announces
/// lies inside `data`.
///
/// Fails with `MissingLengthField` where fewer than four bytes follow `at`,
/// with `TruncatedSection` where fewer bytes follow the field than it
/// declares, and in no other case.
pub fn read_section(data: &[u8], at: usize, which: SectionKind) -> (found: Result<
    Section,
    DecodeError,
>)
    ensures
        found == section_at(data@, at as int, which),
{
    if at > data.len() || data.len() - at < LENGTH_FIELD_LEN {
        return Err(DecodeError::MissingLengthField { which });
    }
    let length: usize = read_le_u32(data, at) as usize;
    let offset: usize = at + LENGTH_FIELD_LEN;
    if data.len() - offset < length {
        return Err(DecodeError::TruncatedSection { which });
    }
    Ok(Section { offset, length })
}

/// Tells whether `data` begins with the signature.
pub fn check_signature(data: &[u8]) -> (ok: bool)
    ensures
        ok == has_signature(data@),
{
    if data.len() < SIGNATURE_LEN {
        return false;
    }
    let mut i: usize = 0;
    while i < SIGNATURE_LEN
        invariant
            i <= 8,
            data@.len() >= 8,
            forall|j: int| 0 <= j < i ==> data@[j] == signature()[j],
        decreases 8 - i,
    {
        if data[i] != SIGNATURE[i] {
            return false;
        }
        i += 1;
    }
    true
}

/// Walks `data` from the signature to the audio payload.
///
/// Returns the layout exactly when `data` has at least ten bytes, begins with
/// the signature, holds each of the three sections in full, and has at least
/// one byte left after the image section. Otherwise the error names the first
/// fault.
pub fn parse_container(data: &[u8]) -> (parsed: Result<Layout, DecodeError>)
    ensures
        parsed == layout_of(data@),
        parsed matches Ok(layout) ==> layout_fits(layout, data@.len() as int),
{
    if data.len() < HEADER_LEN {
        return Err(DecodeError::TooSmall);
    }
    if !check_signature(data) {
        return Err(DecodeError::InvalidSignature);
    }
    let key = match read_section(data, HEADER_LEN, SectionKind::Key) {
        Ok(section) => section,
        Err(e) => { return Err(e); },
    };
    let key_end: usize = key.offset + key.length;
    let metadata = match read_section(data, key_end, SectionKind::Metadata) {
        Ok(section) => section,
        Err(e) => { return Err(e); },
    };
    let metadata_end: usize = metadata.offset + metadata.length;
    if data.len() - metadata_end < GAP_LEN {
        return Err(DecodeError::MissingLengthField { which: SectionKind::Image });
    }
    let image = match read_section(data, metadata_end + GAP_LEN, SectionKind::Image) {
        Ok(section) => section,
        Err(e) => { return Err(e); },
    };
    let image_end: usize = image.offset + image.length;
    if image_end >= data.len() {
        return Err(DecodeError::NoAudioData);
    }
    Ok(
        Layout {
            key,
            metadata,
            image,
            audio: Section { offset: image_end, length: data.len() - image_end },
        },
    )
}

} // verus!
