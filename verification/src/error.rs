use vstd::prelude::*;

verus! {

/// Why the news service turned a request down.
#[derive(Clone, Copy, Debug, PartialEq, Eq, Structural)]
pub enum RejectionCause {
    /// The credential sent with the request has been disabled.
    CredentialDisabled,
    /// Any other reason, named or not.
    Unknown,
}

/// Every way in which reading the news can fail.
#[derive(Clone, Copy, Debug, PartialEq, Eq, Structural)]
pub enum ApiError {
    /// The base address is not an address that a path can be appended to.
    MalformedBaseAddress,
    /// The request did not get through to the service.
    TransportFailure,
    /// An answer came, but not in the expected shape.
    ResponseDecodeFailure,
    /// A well-formed answer whose status is not "ok".
    UpstreamRejected(RejectionCause),
    /// Nothing is cached and no request has succeeded yet.
    NoDataAvailable,
}

impl ApiError {
    /// A short sentence for the reader of a log or a placeholder screen.
    pub fn message(&self) -> (r: String)
        ensures
            r@ == self.message_text(),
    {
        match self {
            ApiError::MalformedBaseAddress => "Could not parse given string into url".to_owned(),
            ApiError::TransportFailure => "Could not fetch articles".to_owned(),
            ApiError::ResponseDecodeFailure => "Could not parse articles".to_owned(),
            ApiError::UpstreamRejected(RejectionCause::CredentialDisabled) =>
                "Request failed Api key disabled".to_owned(),
            ApiError::UpstreamRejected(RejectionCause::Unknown) =>
                "Request failed Unknown Error".to_owned(),
            ApiError::NoDataAvailable => "No data available".to_owned(),
        }
    }

    /// The text of [`ApiError::message`].
    pub open spec fn message_text(&self) -> Seq<char> {
        match self {
            ApiError::MalformedBaseAddress => "Could not parse given string into url"@,
            ApiError::TransportFailure => "Could not fetch articles"@,
            ApiError::ResponseDecodeFailure => "Could not parse articles"@,
            ApiError::UpstreamRejected(RejectionCause::CredentialDisabled) =>
                "Request failed Api key disabled"@,
            ApiError::UpstreamRejected(RejectionCause::Unknown) => "Request failed Unknown Error"@,
            ApiError::NoDataAvailable => "No data available"@,
        }
    }
}

} // verus!
