//! What the virus scanner `clamscan` says of an upload.

use vstd::prelude::*;

use crate::error::{detailed_error, plain_error, ApiError, ApiErrorCode, ErrorView};
use crate::text::{signed_decimal, signed_text};

verus! {

/// How a run of the scanner ended.
#[derive(Debug)]
pub struct ScanExit {
    /// The exit code, where the scanner was not stopped by a signal.
    pub code: Option<i32>,
    pub stdout: Vec<u8>,
    pub stderr: Vec<u8>,
}

pub struct ScanExitView {
    pub code: Option<i32>,
    pub stdout: Seq<u8>,
    pub stderr: Seq<u8>,
}

impl View for ScanExit {
    type V = ScanExitView;

    open spec fn view(&self) -> ScanExitView {
        ScanExitView { code: self.code, stdout: self.stdout@, stderr: self.stderr@ }
    }
}

/// What `String::from_utf8_lossy` makes of bytes.
pub uninterp spec fn utf8_lossy(bytes: Seq<u8>) -> Seq<char>;

/// The text in `bytes`: [`String::from_utf8_lossy`].
///
/// Claimed: the text is a function of the bytes alone, and where the bytes are
/// valid UTF-8 it is the text that they encode. How invalid bytes are replaced
/// is not spelled out.
#[verifier::external_body]
pub(crate) fn lossy_text(bytes: &Vec<u8>) -> (s: String)
    ensures
        s@ == utf8_lossy(bytes@),
        vstd::utf8::valid_utf8(bytes@) ==> s@ == vstd::utf8::decode_utf8(bytes@),
{
    String::from_utf8_lossy(bytes).to_string()
}

/// An exit code as it is reported: `Some(2)`, or `None`.
pub open spec fn exit_code_text(code: Option<i32>) -> Seq<char> {
    match code {
        Some(n) => "Some("@ + signed_text(n as int) + ")"@,
        None => "None"@,
    }
}

/// Why an upload is refused without a scanner.
pub open spec fn scanner_missing() -> ErrorView {
    plain_error(
        ApiErrorCode::VirusScanUnavailable,
        "virus scanning not available (install clamscan to enable uploads)"@,
    )
}

/// Why an upload is refused after the scanner ended with `code`, where it is;
/// `report` is the scanner's output in that case. Code 0 clears the upload,
/// code 1 finds a virus, and anything else means that the scan did not work.
pub open spec fn scan_refusal(code: Option<i32>, report: Seq<char>) -> Option<ErrorView> {
    if code == Some(0i32) {
        None
    } else if code == Some(1i32) {
        Some(detailed_error(ApiErrorCode::VirusDetected, "virus detected"@, report))
    } else {
        Some(
            detailed_error(
                ApiErrorCode::Internal,
                "clamscan failed"@,
                "exit_code="@ + exit_code_text(code) + " stderr="@ + report,
            ),
        )
    }
}

/// What is reported of a run, as the scanner wrote it: its standard output
/// where it found a virus, and its standard error where it failed.
pub open spec fn reported_bytes(exit: ScanExitView) -> Seq<u8> {
    if exit.code == Some(1i32) {
        exit.stdout
    } else {
        exit.stderr
    }
}

/// What is reported of a run, as text.
pub open spec fn scan_report(exit: ScanExitView) -> Seq<char> {
    utf8_lossy(reported_bytes(exit))
}

/// What is reported of a run is the text that the scanner wrote, where it
/// wrote valid UTF-8.
pub open spec fn reports_text(exit: ScanExitView) -> bool {
    vstd::utf8::valid_utf8(reported_bytes(exit)) ==> scan_report(exit) == vstd::utf8::decode_utf8(
        reported_bytes(exit),
    )
}

/// The command that tells whether the scanner can be run.
pub fn probe_command() -> (words: Vec<String>)
    ensures
        words@.len() == 2,
        words@[0]@ == "clamscan"@,
        words@[1]@ == "--version"@,
{
    vec!["clamscan".to_string(), "--version".to_string()]
}

/// The command that scans the file at `path`.
pub fn scan_command(path: &str) -> (words: Vec<String>)
    ensures
        words@.len() == 4,
        words@[0]@ == "clamscan"@,
        words@[1]@ == "--no-summary"@,
        words@[2]@ == "--infected"@,
        words@[3]@ == path@,
{
    vec![
        "clamscan".to_string(),
        "--no-summary".to_string(),
        "--infected".to_string(),
        path.to_string(),
    ]
}

/// Refuses an upload where the scanner is not there.
pub fn require_scanner(found: bool) -> (r: Result<(), ApiError>)
    ensures
        if found {
            r is Ok
        } else {
            r matches Err(e) && e@ == scanner_missing()
        },
{
    if found {
        Ok(())
    } else {
        Err(
            ApiError::virus_scan_unavailable(
                "virus scanning not available (install clamscan to enable uploads)".to_string(),
            ),
        )
    }
}

/// Clears or refuses an upload by the scanner's exit code; `report` is the
/// scanner's output.
pub fn scan_verdict(code: Option<i32>, report: String) -> (r: Result<(), ApiError>)
    ensures
        match scan_refusal(code, report@) {
            Some(refusal) => r matches Err(e) && e@ == refusal,
            None => r is Ok,
        },
{
    match code {
        Some(0) => Ok(()),
        Some(1) => Err(ApiError::virus_detected("virus detected".to_string(), report)),
        _ => {
            let mut details = "exit_code=".to_string();
            match code {
                Some(n) => {
                    details.append("Some(");
                    details.append(signed_decimal(n).as_str());
                    details.append(")");
                },
                None => {
                    details.append("None");
                },
            }
            details.append(" stderr=");
            details.append(report.as_str());
            assert(details@ =~= "exit_code="@ + exit_code_text(code) + " stderr="@ + report@);
            Err(ApiError::internal("clamscan failed".to_string(), details))
        },
    }
}

/// Clears or refuses an upload by how the scanner's run on it ended.
pub fn scan_result(exit: &ScanExit) -> (r: Result<(), ApiError>)
    ensures
        match scan_refusal(exit@.code, scan_report(exit@)) {
            Some(refusal) => r matches Err(e) && e@ == refusal,
            None => r is Ok,
        },
        reports_text(exit@),
        exit.code == Some(1i32) && vstd::utf8::valid_utf8(exit.stdout@) ==> {
            &&& r matches Err(e)
            &&& e.details matches Some(d)
            &&& d@ == vstd::utf8::decode_utf8(exit.stdout@)
        },
{
    let report = match exit.code {
        Some(1) => lossy_text(&exit.stdout),
        _ => lossy_text(&exit.stderr),
    };
    scan_verdict(exit.code, report)
}

} // verus!
