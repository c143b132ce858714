//! Why a transfer fails.

use vstd::prelude::*;
use vstd::string::*;

use crate::text;

verus! {

/// Why a transfer fails. Failures of the network and of the file system carry the message that
/// the layer below gave.
#[derive(Debug)]
pub enum DownloadError {
    HttpError { status: u16 },
    Network(String),
    Io(String),
    InvalidUrl(String),
}

impl DownloadError {
    /// The message shown for the error.
    pub open spec fn message(self) -> Seq<char> {
        match self {
            DownloadError::HttpError { status } => "HTTP error: "@ + text::decimal(status as nat),
            DownloadError::Network(e) => "Network error: "@ + e@,
            DownloadError::Io(e) => "IO error: "@ + e@,
            DownloadError::InvalidUrl(e) => "Invalid URL: "@ + e@,
        }
    }

    /// The message shown for the error.
    pub fn to_text(&self) -> (r: String)
        ensures
            r@ == self.message(),
    {
        match self {
            DownloadError::HttpError { status } => {
                let mut r = "HTTP error: ".to_owned();
                r.append(text::decimal_text(*status as u64).as_str());
                r
            },
            DownloadError::Network(e) => {
                let mut r = "Network error: ".to_owned();
                r.append(e.as_str());
                r
            },
            DownloadError::Io(e) => {
                let mut r = "IO error: ".to_owned();
                r.append(e.as_str());
                r
            },
            DownloadError::InvalidUrl(e) => {
                let mut r = "Invalid URL: ".to_owned();
                r.append(e.as_str());
                r
            },
        }
    }
}

} // verus!
