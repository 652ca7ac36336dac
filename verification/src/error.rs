//! Failures of the decoder.

use vstd::prelude::*;
use vstd::string::StringExecFns;

verus! {

/// The three length-prefixed sections that precede the audio payload.
#[derive(Debug, Clone, Copy, PartialEq, Eq, Structural)]
pub enum SectionKind {
    Key,
    Metadata,
    Image,
}

/// Why a container could not be decoded.
#[derive(Debug, Clone, Copy, PartialEq, Eq, Structural)]
pub enum DecodeError {
    /// The first eight bytes are not the container signature.
    InvalidSignature,
    /// Fewer than ten bytes in all.
    TooSmall,
    /// A section declares more bytes than the container still holds.
    TruncatedSection { which: SectionKind },
    /// Fewer than four bytes are left where a section's length is expected.
    MissingLengthField { which: SectionKind },
    /// Nothing follows the image section.
    NoAudioData,
    /// The decrypted key is shorter than its fixed prefix.
    KeyTooShort,
    /// The cipher could not be set up with the built-in key.
    CipherSetupFailure,
}

/// A result of the decoder with its bytes as a sequence.
pub open spec fn outcome_view(outcome: Result<Vec<u8>, DecodeError>) -> Result<
    Seq<u8>,
    DecodeError,
> {
    match outcome {
        Ok(bytes) => Ok(bytes@),
        Err(e) => Err(e),
    }
}

/// The text shown for `error`.
pub open spec fn message_of(error: DecodeError) -> Seq<char> {
    match error {
        DecodeError::InvalidSignature => "不是有效的NCM文件格式"@,
        DecodeError::TooSmall => "文件太小，不是有效的NCM文件"@,
        DecodeError::TruncatedSection { which: SectionKind::Key } => "密钥数据不完整"@,
        DecodeError::TruncatedSection { which: SectionKind::Metadata } => "元数据不完整"@,
        DecodeError::TruncatedSection { which: SectionKind::Image } => "图片数据不完整"@,
        DecodeError::MissingLengthField { which: SectionKind::Key } => "文件数据不完整"@,
        DecodeError::MissingLengthField { which: SectionKind::Metadata } => "元数据长度信息缺失"@,
        DecodeError::MissingLengthField { which: SectionKind::Image } => "图片长度信息缺失"@,
        DecodeError::NoAudioData => "没有找到音频数据"@,
        DecodeError::KeyTooShort => "解密后的密钥长度不足"@,
        DecodeError::CipherSetupFailure => "解密器初始化失败"@,
    }
}

impl DecodeError {
    /// The text shown to the user for this error.
    pub fn message(&self) -> (text: String)
        ensures
            text@ == message_of(*self),
    {
        match self {
            DecodeError::InvalidSignature => String::from_str("不是有效的NCM文件格式"),
            DecodeError::TooSmall => String::from_str("文件太小，不是有效的NCM文件"),
            DecodeError::TruncatedSection { which: SectionKind::Key } => String::from_str(
                "密钥数据不完整",
            ),
            DecodeError::TruncatedSection { which: SectionKind::Metadata } => String::from_str(
                "元数据不完整",
            ),
            DecodeError::TruncatedSection { which: SectionKind::Image } => String::from_str(
                "图片数据不完整",
            ),
            DecodeError::MissingLengthField { which: SectionKind::Key } => String::from_str(
                "文件数据不完整",
            ),
            DecodeError::MissingLengthField { which: SectionKind::Metadata } => String::from_str(
                "元数据长度信息缺失",
            ),
            DecodeError::MissingLengthField { which: SectionKind::Image } => String::from_str(
                "图片长度信息缺失",
            ),
            DecodeError::NoAudioData => String::from_str("没有找到音频数据"),
            DecodeError::KeyTooShort => String::from_str("解密后的密钥长度不足"),
            DecodeError::CipherSetupFailure => String::from_str("解密器初始化失败"),
        }
    }
}

} // verus!
