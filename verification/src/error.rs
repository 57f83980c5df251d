//! Error taxonomy of the pipeline. Every failure surfaces to the top-level
//! caller; nothing is retried inside the library.

use vstd::prelude::*;

verus! {

/// One variant per failure mode of the pipeline.
#[derive(Debug, Clone, Copy, PartialEq, Eq, Structural)]
pub enum Error {
    /// The external caption source could not produce a readable caption file.
    Acquisition,
    /// Reserved for malformed caption input; normalization itself is total
    /// and never returns it.
    Normalization,
    /// A mandatory field of a completion request was missing at assembly.
    Build,
    /// The HTTP exchange failed below the protocol level.
    Transport,
    /// The completion endpoint answered with a non-success status.
    HttpStatus,
    /// The response body did not match the expected shape, an empty list of
    /// choices included.
    Deserialization,
    /// The source locator does not parse as a URL.
    InvalidLocator,
    /// The configured base URL does not resolve to a completions endpoint.
    InvalidEndpoint,
}

impl Error {
    /// A short diagnostic label for user-facing reporting.
    pub fn label(&self) -> (r: &'static str)
        ensures
            r@ == self.spec_label(),
    {
        match self {
            Error::Acquisition => "caption source unavailable",
            Error::Normalization => "malformed caption input",
            Error::Build => "completion request missing a mandatory field",
            Error::Transport => "transport failure",
            Error::HttpStatus => "completion endpoint returned an error status",
            Error::Deserialization => "malformed completion response",
            Error::InvalidLocator => "source locator is not a valid URL",
            Error::InvalidEndpoint => "base URL is not a valid endpoint",
        }
    }

    /// The label each variant carries.
    pub open spec fn spec_label(&self) -> Seq<char> {
        match self {
            Error::Acquisition => "caption source unavailable"@,
            Error::Normalization => "malformed caption input"@,
            Error::Build => "completion request missing a mandatory field"@,
            Error::Transport => "transport failure"@,
            Error::HttpStatus => "completion endpoint returned an error status"@,
            Error::Deserialization => "malformed completion response"@,
            Error::InvalidLocator => "source locator is not a valid URL"@,
            Error::InvalidEndpoint => "base URL is not a valid endpoint"@,
        }
    }
}

} // verus!
