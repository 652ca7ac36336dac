//! Decoder for NCM encrypted audio containers.
//!
//! A container is parsed into its sections, the per-file key is recovered
//! from the encrypted key blob, a 256-entry key box is scheduled from it, and
//! the audio payload is unmasked byte by byte with the keystream that the key
//! box defines.

pub mod cipher;
pub mod container;
pub mod decoder;
pub mod error;
pub mod files;
pub mod key;
pub mod keybox;
pub mod report;
pub mod stream;

pub use decoder::decode;
pub use error::{DecodeError, SectionKind};
pub use report::{ConversionProgress, ConversionResult};
