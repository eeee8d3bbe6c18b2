//! The result of merging invoice PDFs with the merge script.
use vstd::prelude::*;
use vstd::utf8::decode_utf8;
use vstd::utf8::valid_utf8;

use crate::bindings::utf8_decode;
use crate::bindings::utf8_lossy;
use crate::bindings::utf8_lossy_of;

use crate::text::concat3;
use crate::text::concat2;

verus! {

/// The outcome of merging: the files written, how many, and where.
pub struct MergeResult {
    pub total: usize,
    pub output_dir: String,
    pub files: Vec<String>,
}

impl MergeResult {
    /// The result that reports `files` written into `output_dir`.
    pub fn new(output_dir: String, files: Vec<String>) -> (res: MergeResult)
        ensures
            res.total == files@.len(),
            res.output_dir@ == output_dir@,
            res.files.deep_view() == files.deep_view(),
    {
        MergeResult { total: files.len(), output_dir, files }
    }
}

/// The file that the merge script writes: `output_dir/file_prefix.pdf`.
pub open spec fn merged_output_file_spec(output_dir: Seq<char>, file_prefix: Seq<char>) -> Seq<char> {
    output_dir + "/"@ + file_prefix + ".pdf"@
}

/// The file that the merge script writes.
pub fn merged_output_file(output_dir: &str, file_prefix: &str) -> (res: String)
    ensures
        res@ == merged_output_file_spec(output_dir@, file_prefix@),
{
    let head = concat3(output_dir, "/", file_prefix);
    concat2(head.as_str(), ".pdf")
}


/// The message for a merge script that exited with failure: its standard
/// output (with invalid UTF-8 replaced) and its standard error (when that is
/// valid UTF-8; else a note that it could not be decoded).
pub open spec fn merge_script_failure_spec(stdout: Seq<u8>, stderr: Seq<u8>) -> Seq<char> {
    let err = if valid_utf8(stderr) {
        decode_utf8(stderr)
    } else {
        "无法解码错误信息"@
    };
    "Python脚本执行失败:\nstdout: "@ + utf8_lossy_of(stdout) + "\nstderr: "@ + err
}

/// The message for a merge script that exited with failure.
pub fn merge_script_failure(stdout: &[u8], stderr: &[u8]) -> (res: String)
    ensures
        res@ == merge_script_failure_spec(stdout@, stderr@),
{
    let err = match utf8_decode(stderr) {
        Some(s) => s,
        None => "无法解码错误信息".to_owned(),
    };
    let out = utf8_lossy(stdout);
    let head = concat3("Python脚本执行失败:\nstdout: ", out.as_str(), "\nstderr: ");
    concat2(head.as_str(), err.as_str())
}

} // verus!
