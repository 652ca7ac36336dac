//! What a conversion reports to its caller: the outcome of one file, and the
//! progress of a batch.

use vstd::prelude::*;
use vstd::string::StringExecFns;

verus! {

/// Outcome of converting one file.
#[derive(Debug, PartialEq, Eq)]
pub struct ConversionResult {
    pub success: bool,
    pub message: String,
    pub output_path: Option<String>,
}

/// Progress of a batch: how many of its files are done, and which one is
/// being converted.
#[derive(Debug, PartialEq, Eq)]
pub struct ConversionProgress {
    pub total: usize,
    pub processed: usize,
    pub current_file: String,
    pub status: String,
}

/// Message of a successful conversion.
pub open spec fn success_message() -> Seq<char> {
    "转换成功"@
}

/// What the message of a failed conversion begins with.
pub open spec fn failure_prefix() -> Seq<char> {
    "转换失败: "@
}

/// Status while a file of the batch is being converted.
pub open spec fn converting_status() -> Seq<char> {
    "正在转换"@
}

/// Status once the batch is done.
pub open spec fn finished_status() -> Seq<char> {
    "转换完成"@
}

/// Name reported for a file whose path has no file name.
pub open spec fn unnamed_file() -> Seq<char> {
    "unknown"@
}

impl ConversionResult {
    /// The result of a conversion that wrote `output_path`.
    pub fn converted(output_path: String) -> (result: ConversionResult)
        ensures
            result.success,
            result.message@ == success_message(),
            result.output_path == Some(output_path),
    {
        ConversionResult {
            success: true,
            message: String::from_str("转换成功"),
            output_path: Some(output_path),
        }
    }

    /// The result of a conversion that failed for `reason`.
    pub fn failed(reason: &str) -> (result: ConversionResult)
        ensures
            !result.success,
            result.message@ == failure_prefix() + reason@,
            result.output_path is None,
    {
        ConversionResult {
            success: false,
            message: String::from_str("转换失败: ").concat(reason),
            output_path: None,
        }
    }

    /// The result for the outcome of one conversion: the path written, or
    /// the reason of the failure.
    pub fn from_outcome(outcome: Result<String, String>) -> (result: ConversionResult)
        ensures
            result.success == outcome is Ok,
            outcome matches Ok(path) ==> result.message@ == success_message()
                && result.output_path == Some(path),
            outcome matches Err(reason) ==> result.message@ == failure_prefix() + reason@
                && result.output_path is None,
    {
        match outcome {
            Ok(path) => ConversionResult::converted(path),
            Err(reason) => ConversionResult::failed(reason.as_str()),
        }
    }
}

impl ConversionProgress {
    /// The progress to report before file number `processed` (from zero) of
    /// `total` is converted. `file_name` is the file's name, where its path
    /// has one.
    pub fn converting(total: usize, processed: usize, file_name: Option<String>) -> (progress:
        ConversionProgress)
        ensures
            progress.total == total,
            progress.processed == processed,
            progress.current_file@ == match file_name {
                Some(name) => name@,
                None => unnamed_file(),
            },
            progress.status@ == converting_status(),
    {
        let current_file = match file_name {
            Some(name) => name,
            None => String::from_str("unknown"),
        };
        ConversionProgress {
            total,
            processed,
            current_file,
            status: String::from_str("正在转换"),
        }
    }

    /// The progress to report once all `total` files are done.
    pub fn finished(total: usize) -> (progress: ConversionProgress)
        ensures
            progress.total == total,
            progress.processed == total,
            progress.current_file@.len() == 0,
            progress.status@ == finished_status(),
    {
        ConversionProgress {
            total,
            processed: total,
            current_file: String::new(),
            status: String::from_str("转换完成"),
        }
    }
}

} // verus!
