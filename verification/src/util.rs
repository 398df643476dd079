//! Error type shared by the library's fallible operations.

use vstd::prelude::*;
use vstd::string::StringExecFns;

verus! {

/// Errors that the proxy core can produce.  Configuration errors are fatal
/// at startup; per-request errors are converted to HTTP responses at the
/// router boundary and never propagate further.
#[derive(Debug)]
pub enum ShadowError {
    /// The origin base URL, or a target resolved against it, did not parse.
    UrlParse(String),
    /// TLS material was unreadable, empty, or rejected.
    TlsConfig(String),
}

impl ShadowError {
    /// The detail string carried by the error.
    pub open spec fn spec_detail(&self) -> Seq<char> {
        match self {
            ShadowError::UrlParse(d) => d@,
            ShadowError::TlsConfig(d) => d@,
        }
    }

    /// The full human-readable message for the error.
    pub open spec fn spec_message(&self) -> Seq<char> {
        match self {
            ShadowError::UrlParse(d) => "url parse error: "@ + d@,
            ShadowError::TlsConfig(d) => "tls configuration error: "@ + d@,
        }
    }

    /// Renders the error as a message naming its category and detail.
    pub fn message(&self) -> (r: String)
        ensures
            r@ == self.spec_message(),
    {
        match self {
            ShadowError::UrlParse(d) => {
                let mut s = "url parse error: ".to_owned();
                s.append(d.as_str());
                s
            },
            ShadowError::TlsConfig(d) => {
                let mut s = "tls configuration error: ".to_owned();
                s.append(d.as_str());
                s
            },
        }
    }
}

} // verus!
