use aes::cipher::generic_array::GenericArray;
use aes::cipher::{BlockEncrypt, KeyInit};
use aes::Aes128;
use ncm_decoder::keybox::KeyBox;
use ncm_decoder::stream::decode_audio;
use ncm_decoder::{decode, DecodeError, SectionKind};

/// A container made by another implementation: key `sample-key-0123`, three
/// bytes of metadata, five bytes of image, 21 bytes of audio.
const SAMPLE_CONTAINER: [u8; 108] = [
    0x43, 0x54, 0x45, 0x4e, 0x46, 0x44, 0x41, 0x4d, 0x01, 0x70, 0x30, 0x00, 0x00, 0x00, 0x2c, 0xce,
    0xd5, 0xeb, 0x69, 0xea, 0xfb, 0x14, 0x55, 0x0d, 0x45, 0xbf, 0x61, 0xdd, 0x17, 0x1d, 0xb7, 0x0e,
    0xd8, 0x3d, 0x84, 0x5c, 0xae, 0x49, 0x4c, 0x92, 0x99, 0xcc, 0x9c, 0x6c, 0x5b, 0x41, 0x83, 0x27,
    0xf3, 0xd3, 0x24, 0x0a, 0x93, 0xa1, 0x47, 0xa3, 0xf6, 0x66, 0xb3, 0x5a, 0x4a, 0xe8, 0x03, 0x00,
    0x00, 0x00, 0xaa, 0xbb, 0xcc, 0x00, 0x01, 0x02, 0x03, 0x04, 0x05, 0x06, 0x07, 0x08, 0x05, 0x00,
    0x00, 0x00, 0x01, 0x02, 0x03, 0x04, 0x05, 0x09, 0xb9, 0x53, 0x5c, 0x90, 0xa2, 0x47, 0x63, 0xa4,
    0xd1, 0x0b, 0x77, 0x71, 0x49, 0x5c, 0x8e, 0x75, 0x83, 0xaa, 0x4b, 0x6b,
];

const SAMPLE_AUDIO: &[u8; 21] = b"ID3\x04\x00\x00\x00\x00\x00\x0fhello audio";

fn framed(key_blob: &[u8], metadata: &[u8], image: &[u8], payload: &[u8]) -> Vec<u8> {
    let mut data = Vec::new();
    data.extend_from_slice(b"CTENFDAM");
    data.extend_from_slice(&[0x02, 0x00]);
    data.extend_from_slice(&(key_blob.len() as u32).to_le_bytes());
    data.extend_from_slice(key_blob);
    data.extend_from_slice(&(metadata.len() as u32).to_le_bytes());
    data.extend_from_slice(metadata);
    data.extend_from_slice(&[0x11; 9]);
    data.extend_from_slice(&(image.len() as u32).to_le_bytes());
    data.extend_from_slice(image);
    data.extend_from_slice(payload);
    data
}

fn encrypted_key_blob(key: &[u8]) -> Vec<u8> {
    let mut plain = b"neteasecloudmusic".to_vec();
    plain.extend_from_slice(key);
    let padding = 16 - plain.len() % 16;
    plain.extend(std::iter::repeat(padding as u8).take(padding));
    let cipher = Aes128::new(GenericArray::from_slice(b"hzHRAmso5kInbaxW"));
    for chunk in plain.chunks_mut(16) {
        cipher.encrypt_block(GenericArray::from_mut_slice(chunk));
    }
    plain.iter().map(|b| b ^ 0x64).collect()
}

/// The container that holds `audio` under `key`.
fn encode(audio: &[u8], key: &[u8], metadata: &[u8], image: &[u8]) -> Vec<u8> {
    let payload = decode_audio(audio, &KeyBox::generate(key));
    framed(&encrypted_key_blob(key), metadata, image, &payload)
}

#[test]
fn sample_container_decodes_to_its_audio() {
    assert_eq!(decode(&SAMPLE_CONTAINER), Ok(SAMPLE_AUDIO.to_vec()));
}

#[test]
fn encoder_rebuilds_the_sample_container() {
    let mut built = encode(SAMPLE_AUDIO, b"sample-key-0123", &[0xaa, 0xbb, 0xcc], &[1, 2, 3, 4, 5]);
    built[8..10].copy_from_slice(&[0x01, 0x70]);
    built[69..78].copy_from_slice(&[0, 1, 2, 3, 4, 5, 6, 7, 8]);
    assert_eq!(built, SAMPLE_CONTAINER.to_vec());
}

#[test]
fn decoding_undoes_encoding() {
    let key = b"a fixed test key";
    for len in [1usize, 2, 16, 255, 256, 257, 4096] {
        let audio: Vec<u8> = (0..len).map(|i| (i * 31 + 7) as u8).collect();
        let container = encode(&audio, key, b"{\"title\":\"x\"}", &[0x89, 0x50, 0x4e, 0x47]);
        assert_eq!(decode(&container), Ok(audio), "audio of {} bytes", len);
    }
}

#[test]
fn decoding_undoes_encoding_for_many_keys() {
    let audio: Vec<u8> = (0..500u32).map(|i| (i * i) as u8).collect();
    for len in 1..70usize {
        let key: Vec<u8> = (0..len).map(|i| (i * 11 + 3) as u8).collect();
        let container = encode(&audio, &key, &[], &[]);
        assert_eq!(decode(&container), Ok(audio.clone()), "key of {} bytes", len);
    }
}

#[test]
fn an_empty_buffer_cannot_be_carried() {
    let container = encode(&[], b"a fixed test key", &[1], &[2]);
    assert_eq!(decode(&container), Err(DecodeError::NoAudioData));
}

#[test]
fn an_empty_key_decodes_with_the_identity_key_box() {
    let container = framed(&encrypted_key_blob(&[]), &[], &[], &[0x02, 0x04, 0x0a, 0x08]);
    assert_eq!(decode(&container), Ok(vec![1, 2, 3, 4]));
}

#[test]
fn decoding_twice_gives_the_same_audio() {
    assert_eq!(decode(&SAMPLE_CONTAINER), decode(&SAMPLE_CONTAINER));
}

#[test]
fn metadata_and_image_are_skipped() {
    let audio = b"the same audio";
    let key = b"k";
    let plain = decode(&encode(audio, key, &[], &[]));
    let loaded = decode(&encode(audio, key, &[0xff; 300], &[0x00; 70000]));
    assert_eq!(plain, Ok(audio.to_vec()));
    assert_eq!(loaded, Ok(audio.to_vec()));
}

#[test]
fn ten_bytes_with_the_signature_miss_the_key_length() {
    assert_eq!(
        decode(b"CTENFDAM\x01\x70"),
        Err(DecodeError::MissingLengthField { which: SectionKind::Key })
    );
}

#[test]
fn empty_sections_and_no_audio_give_no_audio_data() {
    let container = framed(&[], &[], &[], &[]);
    assert_eq!(container.len(), 31);
    assert_eq!(decode(&container), Err(DecodeError::NoAudioData));
}

#[test]
fn empty_key_section_with_audio_is_too_short() {
    let container = framed(&[], &[], &[], &[1, 2, 3, 4]);
    assert_eq!(decode(&container), Err(DecodeError::KeyTooShort));
}

#[test]
fn sixteen_zero_bytes_of_key_are_too_short() {
    // The key section becomes sixteen bytes 0x64, which decrypt to a block
    // that ends in 0x34: nothing is removed, sixteen bytes are left.
    let container = framed(&[0; 16], &[], &[], &[0x01, 0x02, 0x03, 0x04]);
    assert_eq!(container.len(), 10 + 4 + 16 + 4 + 9 + 4 + 4);
    assert_eq!(decode(&container), Err(DecodeError::KeyTooShort));
}

#[test]
fn layout_faults_come_before_a_short_key() {
    let whole = framed(&[0; 16], &[7; 3], &[8; 2], &[9; 4]);
    assert_eq!(decode(&whole), Err(DecodeError::KeyTooShort));
    assert_eq!(decode(&whole[..whole.len() - 4]), Err(DecodeError::NoAudioData));
    assert_eq!(
        decode(&whole[..whole.len() - 5]),
        Err(DecodeError::TruncatedSection { which: SectionKind::Image })
    );
    assert_eq!(
        decode(&whole[..36]),
        Err(DecodeError::TruncatedSection { which: SectionKind::Metadata })
    );
    assert_eq!(
        decode(&whole[..33]),
        Err(DecodeError::MissingLengthField { which: SectionKind::Metadata })
    );
}

#[test]
fn truncated_sample_container() {
    let cut = |end: usize| decode(&SAMPLE_CONTAINER[..end]);
    assert_eq!(cut(0), Err(DecodeError::TooSmall));
    assert_eq!(cut(9), Err(DecodeError::TooSmall));
    assert_eq!(cut(13), Err(DecodeError::MissingLengthField { which: SectionKind::Key }));
    assert_eq!(cut(61), Err(DecodeError::TruncatedSection { which: SectionKind::Key }));
    assert_eq!(cut(65), Err(DecodeError::MissingLengthField { which: SectionKind::Metadata }));
    assert_eq!(cut(68), Err(DecodeError::TruncatedSection { which: SectionKind::Metadata }));
    assert_eq!(cut(81), Err(DecodeError::MissingLengthField { which: SectionKind::Image }));
    assert_eq!(cut(86), Err(DecodeError::TruncatedSection { which: SectionKind::Image }));
    assert_eq!(cut(87), Err(DecodeError::NoAudioData));
    assert_eq!(cut(88), Ok(vec![0x49]));
    assert_eq!(cut(90), Ok(b"ID3".to_vec()));
}

#[test]
fn wrong_signature_is_an_error() {
    let mut container = SAMPLE_CONTAINER;
    container[7] = b'N';
    assert_eq!(decode(&container), Err(DecodeError::InvalidSignature));
}

#[test]
fn a_changed_key_section_changes_the_audio_or_fails() {
    let mut container = SAMPLE_CONTAINER;
    container[40] ^= 0x01;
    assert_ne!(decode(&container), Ok(SAMPLE_AUDIO.to_vec()));
}
