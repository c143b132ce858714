use shard::error::{DownloadError, HttpFailure, IoFailure, IoKind};

fn http(timeout: bool, connect: bool, request: bool) -> DownloadError {
    DownloadError::Http(HttpFailure { message: "m".to_string(), timeout, connect, request })
}

fn io(kind: IoKind) -> DownloadError {
    DownloadError::Io(IoFailure { message: "m".to_string(), kind })
}

#[test]
fn transient_errors_are_retryable() {
    assert!(http(true, false, false).is_retryable());
    assert!(http(false, true, false).is_retryable());
    assert!(http(false, false, true).is_retryable());
    assert!(!http(false, false, false).is_retryable());
    assert!(io(IoKind::Interrupted).is_retryable());
    assert!(io(IoKind::WouldBlock).is_retryable());
    assert!(!io(IoKind::Other).is_retryable());
    assert!(!DownloadError::RangeNotSupported.is_retryable());
    assert!(!DownloadError::LengthMismatch { expected: 1, actual: 2 }.is_retryable());
    assert!(!DownloadError::MetadataCorrupted.is_retryable());
    assert!(!DownloadError::MaxRetries { chunk_id: 3 }.is_retryable());
    assert!(!DownloadError::Cancelled.is_retryable());
}

#[test]
fn errors_are_written() {
    assert_eq!(http(true, true, true).to_text(), "HTTP error: m");
    assert_eq!(io(IoKind::Other).to_text(), "I/O error: m");
    assert_eq!(
        DownloadError::RangeNotSupported.to_text(),
        "Server does not support range requests"
    );
    assert_eq!(
        DownloadError::LengthMismatch { expected: 10, actual: 7 }.to_text(),
        "Content length mismatch: expected 10, got 7"
    );
    assert_eq!(
        DownloadError::MetadataCorrupted.to_text(),
        "Resume metadata corrupted or incompatible"
    );
    assert_eq!(
        DownloadError::MaxRetries { chunk_id: 3 }.to_text(),
        "Max retries exceeded for chunk 3"
    );
    assert_eq!(DownloadError::Cancelled.to_text(), "Download cancelled");
}
