use crate::address::{prep_url, built_address};
use crate::article::{ApiResponse, News};
use crate::error::{ApiError, RejectionCause};
use crate::request::ApiRequest;
use vstd::prelude::*;

verus! {

/// The body of an answer, as far as the client reads it: the status, the
/// code that comes with a refusal, and the articles.
#[derive(Debug, Clone)]
pub struct ResponseBody {
    pub status: String,
    pub code: Option<String>,
    pub articles: Vec<News>,
}

/// How one request ended.
#[derive(Debug, Clone)]
pub enum FetchOutcome {
    /// No answer: the request failed on its way.
    TransportFailed,
    /// An answer whose body is not of the expected shape.
    DecodeFailed,
    /// An answer of the expected shape.
    Answered(ResponseBody),
}

/// The cause that a refusal's code stands for.
pub open spec fn cause_of(code: Option<Seq<char>>) -> RejectionCause {
    if code == Some("apiKeyDisabled"@) {
        RejectionCause::CredentialDisabled
    } else {
        RejectionCause::Unknown
    }
}

/// The code of a body, as a text.
pub open spec fn code_text(code: Option<String>) -> Option<Seq<char>> {
    match code {
        Some(c) => Some(c@),
        None => None,
    }
}

/// What an outcome comes to: the articles of an answer with the status "ok",
/// or the error that tells why there are none.
pub open spec fn outcome_result(outcome: FetchOutcome) -> Result<Seq<News>, ApiError> {
    match outcome {
        FetchOutcome::TransportFailed => Err(ApiError::TransportFailure),
        FetchOutcome::DecodeFailed => Err(ApiError::ResponseDecodeFailure),
        FetchOutcome::Answered(body) => if body.status@ == "ok"@ {
            Ok(body.articles@)
        } else {
            Err(ApiError::UpstreamRejected(cause_of(code_text(body.code))))
        },
    }
}

/// The client of the news service: where it is, and the credential to send.
pub struct NewsApi {
    api_key: String,
    address: String,
}

impl NewsApi {
    pub closed spec fn address_text(&self) -> Seq<char> {
        self.address@
    }

    pub closed spec fn key_text(&self) -> Seq<char> {
        self.api_key@
    }

    /// A client for the service at the base address `ad`, with the credential `key`.
    pub fn new(ad: String, key: String) -> (r: NewsApi)
        ensures
            r.address_text() == ad@,
            r.key_text() == key@,
    {
        NewsApi { api_key: key, address: ad }
    }

    /// The base address of the service.
    pub fn get_address(&self) -> (r: &str)
        ensures
            r@ == self.address_text(),
    {
        self.address.as_str()
    }

    /// The address to ask for `req`, or `MalformedBaseAddress` where the
    /// client's base address is none.
    pub fn request_url(&self, req: &ApiRequest) -> (r: Result<String, ApiError>)
        ensures
            match built_address(self.address_text(), *req) {
                Some(text) => r matches Ok(s) && s@ == text,
                None => r == Err::<String, ApiError>(ApiError::MalformedBaseAddress),
            },
    {
        prep_url(self.address.as_str(), req)
    }

    /// The error that a refusal with the code `code` stands for: a disabled
    /// credential where the code says so, an unknown cause for any other code
    /// and for none.
    pub fn map_request_error(code: &Option<String>) -> (r: ApiError)
        ensures
            r == ApiError::UpstreamRejected(cause_of(code_text(*code))),
    {
        match code {
            Some(c) => {
                let known = "apiKeyDisabled".to_owned();
                if *c == known {
                    ApiError::UpstreamRejected(RejectionCause::CredentialDisabled)
                } else {
                    ApiError::UpstreamRejected(RejectionCause::Unknown)
                }
            },
            None => ApiError::UpstreamRejected(RejectionCause::Unknown),
        }
    }

    /// Reads the outcome of a request: the answer where its status is "ok",
    /// else the error that the outcome stands for.
    pub fn fetch(outcome: FetchOutcome) -> (r: Result<ApiResponse, ApiError>)
        ensures
            match outcome_result(outcome) {
                Ok(articles) => r matches Ok(res) && res.articles() == articles
                    && res.status_text() == "ok"@,
                Err(e) => r == Err::<ApiResponse, ApiError>(e),
            },
    {
        match outcome {
            FetchOutcome::TransportFailed => Err(ApiError::TransportFailure),
            FetchOutcome::DecodeFailed => Err(ApiError::ResponseDecodeFailure),
            FetchOutcome::Answered(body) => {
                let ok = "ok".to_owned();
                if body.status == ok {
                    Ok(ApiResponse::new(body.status, body.articles))
                } else {
                    Err(NewsApi::map_request_error(&body.code))
                }
            },
        }
    }
}

/// The credential that `client` sends with each request.
pub fn get_key(client: &NewsApi) -> (r: String)
    ensures
        r@ == client.key_text(),
{
    client.api_key.clone()
}

} // verus!
