use ncm_decoder::error::{DecodeError, SectionKind};
use ncm_decoder::files::is_ncm_extension;
use ncm_decoder::{ConversionProgress, ConversionResult};

#[test]
fn result_of_a_conversion_that_succeeded() {
    assert_eq!(
        ConversionResult::converted("/music/a.mp3".to_string()),
        ConversionResult {
            success: true,
            message: "转换成功".to_string(),
            output_path: Some("/music/a.mp3".to_string()),
        }
    );
}

#[test]
fn result_of_a_conversion_that_failed() {
    assert_eq!(
        ConversionResult::failed("文件不存在"),
        ConversionResult {
            success: false,
            message: "转换失败: 文件不存在".to_string(),
            output_path: None,
        }
    );
    assert_eq!(ConversionResult::failed("").message, "转换失败: ");
}

#[test]
fn result_from_an_outcome() {
    assert_eq!(
        ConversionResult::from_outcome(Ok("out.mp3".to_string())),
        ConversionResult::converted("out.mp3".to_string())
    );
    assert_eq!(
        ConversionResult::from_outcome(Err("不是NCM文件".to_string())),
        ConversionResult::failed("不是NCM文件")
    );
}

#[test]
fn result_of_a_decoder_error() {
    let result = ConversionResult::failed(&DecodeError::NoAudioData.message());
    assert!(!result.success);
    assert_eq!(result.message, "转换失败: 没有找到音频数据");
    assert_eq!(result.output_path, None);
}

#[test]
fn progress_while_converting() {
    assert_eq!(
        ConversionProgress::converting(5, 2, Some("song.ncm".to_string())),
        ConversionProgress {
            total: 5,
            processed: 2,
            current_file: "song.ncm".to_string(),
            status: "正在转换".to_string(),
        }
    );
}

#[test]
fn progress_for_a_path_without_a_file_name() {
    let progress = ConversionProgress::converting(1, 0, None);
    assert_eq!(progress.current_file, "unknown");
    assert_eq!(progress.total, 1);
    assert_eq!(progress.processed, 0);
    assert_eq!(progress.status, "正在转换");
}

#[test]
fn progress_when_finished() {
    assert_eq!(
        ConversionProgress::finished(7),
        ConversionProgress {
            total: 7,
            processed: 7,
            current_file: String::new(),
            status: "转换完成".to_string(),
        }
    );
    assert_eq!(ConversionProgress::finished(0).processed, 0);
}

#[test]
fn message_of_every_error() {
    let key = SectionKind::Key;
    let metadata = SectionKind::Metadata;
    let image = SectionKind::Image;
    assert_eq!(DecodeError::InvalidSignature.message(), "不是有效的NCM文件格式");
    assert_eq!(DecodeError::TooSmall.message(), "文件太小，不是有效的NCM文件");
    assert_eq!(DecodeError::TruncatedSection { which: key }.message(), "密钥数据不完整");
    assert_eq!(DecodeError::TruncatedSection { which: metadata }.message(), "元数据不完整");
    assert_eq!(DecodeError::TruncatedSection { which: image }.message(), "图片数据不完整");
    assert_eq!(DecodeError::MissingLengthField { which: key }.message(), "文件数据不完整");
    assert_eq!(
        DecodeError::MissingLengthField { which: metadata }.message(),
        "元数据长度信息缺失"
    );
    assert_eq!(DecodeError::MissingLengthField { which: image }.message(), "图片长度信息缺失");
    assert_eq!(DecodeError::NoAudioData.message(), "没有找到音频数据");
    assert_eq!(DecodeError::KeyTooShort.message(), "解密后的密钥长度不足");
    assert_eq!(DecodeError::CipherSetupFailure.message(), "解密器初始化失败");
}

#[test]
fn errors_are_told_apart() {
    assert_ne!(DecodeError::TooSmall, DecodeError::InvalidSignature);
    assert_ne!(
        DecodeError::TruncatedSection { which: SectionKind::Key },
        DecodeError::TruncatedSection { which: SectionKind::Image }
    );
    assert_ne!(
        DecodeError::TruncatedSection { which: SectionKind::Key },
        DecodeError::MissingLengthField { which: SectionKind::Key }
    );
}

#[test]
fn extension_in_any_case() {
    assert!(is_ncm_extension("ncm"));
    assert!(is_ncm_extension("NCM"));
    assert!(is_ncm_extension("Ncm"));
    assert!(is_ncm_extension("nCm"));
    assert!(is_ncm_extension("ncM"));
}

#[test]
fn other_extensions() {
    assert!(!is_ncm_extension(""));
    assert!(!is_ncm_extension("nc"));
    assert!(!is_ncm_extension("ncmx"));
    assert!(!is_ncm_extension("mp3"));
    assert!(!is_ncm_extension("mcn"));
    assert!(!is_ncm_extension(".ncm"));
    assert!(!is_ncm_extension("ncｍ"));
    assert!(!is_ncm_extension("转换成"));
}

#[test]
fn extension_agrees_with_lower_casing() {
    for text in ["ncm", "NCM", "nCM", "ncn", "NC", "ｎcm", "ŃCM", "n\u{212A}m", "NCM "] {
        assert_eq!(is_ncm_extension(text), text.to_lowercase() == "ncm", "{:?}", text);
    }
}
