//! What can go wrong with a download, and whether trying again may help.

use vstd::prelude::*;
use vstd::string::*;

use crate::text;

verus! {

/// A failure of the HTTP client, as it describes itself.
#[derive(Debug)]
pub struct HttpFailure {
    pub message: String,
    /// It comes from a timeout.
    pub timeout: bool,
    /// It comes from connecting.
    pub connect: bool,
    /// It comes from sending the request.
    pub request: bool,
}

/// The kinds of I/O failures that are told apart.
#[derive(Debug, Clone, Copy, PartialEq, Eq, Structural)]
pub enum IoKind {
    Interrupted,
    WouldBlock,
    Other,
}

/// An I/O failure, as it describes itself.
#[derive(Debug)]
pub struct IoFailure {
    pub message: String,
    pub kind: IoKind,
}

/// What can go wrong with a download.
#[derive(Debug)]
pub enum DownloadError {
    Http(HttpFailure),
    Io(IoFailure),
    RangeNotSupported,
    LengthMismatch { expected: u64, actual: u64 },
    MetadataCorrupted,
    MaxRetries { chunk_id: usize },
    Cancelled,
}

impl DownloadError {
    /// Whether the same request may succeed when it is made again.
    pub open spec fn transient(self) -> bool {
        match self {
            DownloadError::Http(e) => e.timeout || e.connect || e.request,
            DownloadError::Io(e) => e.kind == IoKind::Interrupted || e.kind == IoKind::WouldBlock,
            _ => false,
        }
    }

    /// Whether the same request may succeed when it is made again.
    pub fn is_retryable(&self) -> (r: bool)
        ensures
            r == self.transient(),
    {
        match self {
            DownloadError::Http(e) => e.timeout || e.connect || e.request,
            DownloadError::Io(e) => match e.kind {
                IoKind::Interrupted | IoKind::WouldBlock => true,
                IoKind::Other => false,
            },
            DownloadError::RangeNotSupported
            | DownloadError::LengthMismatch { .. }
            | DownloadError::MetadataCorrupted
            | DownloadError::MaxRetries { .. }
            | DownloadError::Cancelled => false,
        }
    }

    /// How the error is written.
    pub open spec fn text(self) -> Seq<char> {
        match self {
            DownloadError::Http(e) => "HTTP error: "@ + e.message@,
            DownloadError::Io(e) => "I/O error: "@ + e.message@,
            DownloadError::RangeNotSupported => "Server does not support range requests"@,
            DownloadError::LengthMismatch { expected, actual } =>
                "Content length mismatch: expected "@ + text::decimal(expected as nat) + ", got "@
                    + text::decimal(actual as nat),
            DownloadError::MetadataCorrupted => "Resume metadata corrupted or incompatible"@,
            DownloadError::MaxRetries { chunk_id } => "Max retries exceeded for chunk "@
                + text::decimal(chunk_id as nat),
            DownloadError::Cancelled => "Download cancelled"@,
        }
    }

    /// How the error is written.
    pub fn to_text(&self) -> (r: String)
        ensures
            r@ == self.text(),
    {
        match self {
            DownloadError::Http(e) => {
                let mut r = "HTTP error: ".to_owned();
                r.append(e.message.as_str());
                r
            },
            DownloadError::Io(e) => {
                let mut r = "I/O error: ".to_owned();
                r.append(e.message.as_str());
                r
            },
            DownloadError::RangeNotSupported => "Server does not support range requests".to_owned(),
            DownloadError::LengthMismatch { expected, actual } => {
                let mut r = "Content length mismatch: expected ".to_owned();
                r.append(text::decimal_text(*expected).as_str());
                r.append(", got ");
                r.append(text::decimal_text(*actual).as_str());
                r
            },
            DownloadError::MetadataCorrupted => {
                "Resume metadata corrupted or incompatible".to_owned()
            },
            DownloadError::MaxRetries { chunk_id } => {
                let mut r = "Max retries exceeded for chunk ".to_owned();
                r.append(text::decimal_text(*chunk_id as u64).as_str());
                r
            },
            DownloadError::Cancelled => "Download cancelled".to_owned(),
        }
    }
}

/// Trying again helps exactly against what may pass: a failure of the HTTP client that comes from a
/// timeout, from connecting or from sending, and an I/O operation that was interrupted or would have
/// blocked.
pub proof fn law_only_passing_failures_are_retried(e: DownloadError)
    ensures
        e matches DownloadError::Http(h) ==> (e.transient() <==> h.timeout || h.connect
            || h.request),
        e matches DownloadError::Io(io) ==> (e.transient() <==> !(io.kind is Other)),
        e.transient() ==> e is Http || e is Io,
{
}

/// The text of an error ends with the message of the layer below, or names the numbers that it
/// holds.
pub proof fn law_errors_say_why(e: DownloadError)
    ensures
        e matches DownloadError::Http(h) ==> e.text() == "HTTP error: "@ + h.message@,
        e matches DownloadError::Io(io) ==> e.text() == "I/O error: "@ + io.message@,
        e matches DownloadError::LengthMismatch { expected, actual } ==> text::has_text(
            e.text(),
            "expected "@ + text::decimal(expected as nat) + ", got "@ + text::decimal(
                actual as nat,
            ),
        ),
        e matches DownloadError::MaxRetries { chunk_id } ==> e.text()
            == "Max retries exceeded for chunk "@ + text::decimal(chunk_id as nat),
{
    if let DownloadError::LengthMismatch { expected, actual } = e {
        reveal_strlit("Content length mismatch: expected ");
        reveal_strlit("expected ");
        let p = "expected "@ + text::decimal(expected as nat) + ", got "@ + text::decimal(
            actual as nat,
        );
        let head = "Content length mismatch: expected "@.subrange(0, 25);
        assert("Content length mismatch: expected "@ =~= head + "expected "@);
        assert(e.text() =~= head + p + Seq::empty());
        text::law_found_text_stands_there(e.text(), p);
    }
}

} // verus!
