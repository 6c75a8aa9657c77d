use crate::address::built_address;
use crate::article::{is_mock, ApiResponse, News};
use crate::client::{get_key, outcome_result, FetchOutcome, NewsApi};
use crate::error::ApiError;
use crate::request::{ApiRequest, Fils, Locs};
use vstd::prelude::*;

verus! {

/// How many made-up articles a demonstration shows.
pub const MOCK_ARTICLES: usize = 200;

/// The state of the reader's side: the request as the reader has set it, the
/// last good answer, and the request that this answer was asked with.
#[derive(Debug)]
pub struct Api {
    request: ApiRequest,
    response: Option<ApiResponse>,
    query: (Fils, Locs),
}

/// What a read asks of its caller.
#[derive(Debug, Clone)]
pub enum ReadStep {
    /// The cached answer is the answer to the request: nothing to do.
    Cached,
    /// Ask the service at this address, and hand the outcome to [`install`].
    Fetch(String),
}

/// A read's step, as a contract sees it: no address, or the address to ask.
pub open spec fn step_view(step: ReadStep) -> Option<Seq<char>> {
    match step {
        ReadStep::Cached => None,
        ReadStep::Fetch(url) => Some(url@),
    }
}

/// The step that a read takes in the state `api`, for a service at `base`:
/// none where the cache answers the request, else a request to the address
/// of the request, or the refusal of a base that is no address.
pub open spec fn planned(api: Api, base: Seq<char>) -> Result<Option<Seq<char>>, ApiError> {
    if api.is_fresh() {
        Ok(None)
    } else {
        match built_address(base, api.request()) {
            Some(url) => Ok(Some(url)),
            None => Err(ApiError::MalformedBaseAddress),
        }
    }
}

/// The state after the outcome of a request has been installed in `before`.
/// A good outcome replaces the answer whole and records the request it was
/// asked with; any other leaves the state as it was.
pub open spec fn installed(before: Api, outcome: FetchOutcome, after: Api) -> bool {
    match outcome_result(outcome) {
        Ok(articles) => {
            &&& after.request() == before.request()
            &&& after.last_query() == (before.request().end_point, before.request().country)
            &&& after.response() is Some
            &&& after.response()->Some_0.articles() == articles
            &&& after.response()->Some_0.status_text() == "ok"@
        },
        Err(_) => after == before,
    }
}

impl Api {
    /// The request as the reader has set it.
    pub closed spec fn request(&self) -> ApiRequest {
        self.request
    }

    /// The cached answer, where there is one.
    pub closed spec fn response(&self) -> Option<ApiResponse> {
        self.response
    }

    /// The request that the cached answer was asked with.
    pub closed spec fn last_query(&self) -> (Fils, Locs) {
        self.query
    }

    /// This state with the request set to `req`, and nothing else changed.
    pub closed spec fn with_request(self, req: ApiRequest) -> Api {
        Api { request: req, ..self }
    }

    /// The cache holds an answer, and it is the answer to the request as it
    /// now stands.
    pub open spec fn is_fresh(&self) -> bool {
        self.response() is Some && self.last_query() == (self.request().end_point, self.request().country)
    }

    /// A state with nothing cached, set to the headlines of the United States.
    pub fn new() -> (r: Api)
        ensures
            r.request() == (ApiRequest { country: Locs::US, end_point: Fils::HEADLINES }),
            r.response() is None,
            r.last_query() == (Fils::HEADLINES, Locs::US),
    {
        Api {
            request: ApiRequest { country: Locs::US, end_point: Fils::HEADLINES },
            response: None,
            query: (Fils::HEADLINES, Locs::US),
        }
    }

    pub fn get_request(&self) -> (r: &ApiRequest)
        ensures
            *r == self.request(),
    {
        &self.request
    }

    /// The request, for the reader to change. The cache is not touched: the
    /// next read sees whether the request still is the one it answers.
    pub fn get_request_mut(&mut self) -> (r: &mut ApiRequest)
        ensures
            *r == old(self).request(),
            final(self).request() == *final(r),
            final(self).response() == old(self).response(),
            final(self).last_query() == old(self).last_query(),
    {
        &mut self.request
    }

    pub fn get_response(&self) -> (r: Option<&ApiResponse>)
        ensures
            r is Some == self.response() is Some,
            r is Some ==> *r->Some_0 == self.response()->Some_0,
    {
        match &self.response {
            Some(res) => Some(res),
            None => None,
        }
    }

    /// The request that the cached answer was asked with. Only a read that
    /// succeeds sets it.
    pub fn get_query(&self) -> (r: &(Fils, Locs))
        ensures
            *r == self.last_query(),
    {
        &self.query
    }

    /// The cached articles, in the order in which they came, or
    /// `NoDataAvailable` where no request has succeeded yet.
    pub fn collect(&self) -> (r: Result<&Vec<News>, ApiError>)
        ensures
            match self.response() {
                Some(res) => r matches Ok(v) && v@ == res.articles(),
                None => r == Err::<&Vec<News>, ApiError>(ApiError::NoDataAvailable),
            },
    {
        match &self.response {
            Some(res) => Ok(res.get_articles()),
            None => Err(ApiError::NoDataAvailable),
        }
    }
}

/// Decides what a read has to do: nothing where the cache answers the request
/// as it stands, else one request to the service of `client`. The state is
/// not changed: that is for [`install`], once the outcome is known.
pub fn plan(api: &Api, client: &NewsApi) -> (r: Result<ReadStep, ApiError>)
    ensures
        match planned(*api, client.address_text()) {
            Ok(step) => r matches Ok(s) && step_view(s) == step,
            Err(e) => r == Err::<ReadStep, ApiError>(e),
        },
{
    let fresh = match &api.response {
        Some(_) => api.query.0 == api.request.end_point && api.query.1 == api.request.country,
        None => false,
    };
    if fresh {
        Ok(ReadStep::Cached)
    } else {
        match client.request_url(&api.request) {
            Ok(url) => Ok(ReadStep::Fetch(url)),
            Err(e) => Err(e),
        }
    }
}

/// Installs the outcome of the request that [`plan`] asked for. A good answer
/// replaces the cached one whole and is recorded as the answer to the request
/// as it stands; a failure is handed back and changes nothing.
pub fn install(api: &mut Api, outcome: FetchOutcome) -> (r: Result<(), ApiError>)
    ensures
        installed(*old(api), outcome, *final(api)),
        match outcome_result(outcome) {
            Ok(_) => r == Ok::<(), ApiError>(()),
            Err(e) => r == Err::<(), ApiError>(e),
        },
{
    match NewsApi::fetch(outcome) {
        Ok(res) => {
            api.query = (api.request.end_point, api.request.country);
            api.response = Some(res);
            Ok(())
        },
        Err(e) => Err(e),
    }
}

/// What a read hands back for an outcome: nothing to report, or the error.
pub open spec fn report(outcome: FetchOutcome) -> Result<(), ApiError> {
    match outcome_result(outcome) {
        Ok(_) => Ok(()),
        Err(e) => Err(e),
    }
}

/// Brings the cache up to date with the request as it stands. Where the cache
/// answers the request, nothing is asked and nothing changes. Else `fetch` is
/// called, once, with the address of the request and the client's credential,
/// and its outcome is installed: a good answer replaces the cache whole, a
/// failure is handed back and leaves the cache as it was. `fetch` must take
/// any address with the client's credential. It is taken by value and the
/// state by exclusive reference: no second request can be under way while
/// this one is.
pub fn read<F: FnOnce(&str, &str) -> FetchOutcome>(api: &mut Api, client: &NewsApi, fetch: F) -> (r:
    Result<(), ApiError>)
    requires
        forall|url: &str, key: &str| key@ == client.key_text() ==> call_requires(fetch, (url, key)),
    ensures
        match planned(*old(api), client.address_text()) {
            Ok(None) => *final(api) == *old(api) && r == Ok::<(), ApiError>(()),
            Ok(Some(address)) => exists|url: &str, key: &str, outcome: FetchOutcome|
                {
                    &&& url@ == address
                    &&& key@ == client.key_text()
                    &&& #[trigger] call_ensures(fetch, (url, key), outcome)
                    &&& installed(*old(api), outcome, *final(api))
                    &&& r == report(outcome)
                },
            Err(e) => *final(api) == *old(api) && r == Err::<(), ApiError>(e),
        },
{
    match plan(api, client) {
        Ok(ReadStep::Cached) => Ok(()),
        Ok(ReadStep::Fetch(url)) => {
            let key = get_key(client);
            let outcome = fetch(url.as_str(), key.as_str());
            install(api, outcome)
        },
        Err(e) => Err(e),
    }
}

impl NewsApi {
    /// Sets the request to the market `loc` and the feed `point`, and brings
    /// the cache up to date with it, as [`read`] does.
    pub fn fetch_with<F: FnOnce(&str, &str) -> FetchOutcome>(
        &self,
        api: &mut Api,
        loc: Locs,
        point: Fils,
        fetch: F,
    ) -> (r: Result<(), ApiError>)
        requires
            forall|url: &str, key: &str|
                key@ == self.key_text() ==> call_requires(fetch, (url, key)),
        ensures
            ({
                let set = old(api).with_request(ApiRequest { country: loc, end_point: point });
                match planned(set, self.address_text()) {
                    Ok(None) => *final(api) == set && r == Ok::<(), ApiError>(()),
                    Ok(Some(address)) => exists|url: &str, key: &str, outcome: FetchOutcome|
                        {
                            &&& url@ == address
                            &&& key@ == self.key_text()
                            &&& #[trigger] call_ensures(fetch, (url, key), outcome)
                            &&& installed(set, outcome, *final(api))
                            &&& r == report(outcome)
                        },
                    Err(e) => *final(api) == set && r == Err::<(), ApiError>(e),
                }
            }),
    {
        api.request = ApiRequest { country: loc, end_point: point };
        read(api, self, fetch)
    }
}

/// Every article of `items` has the shape of a made-up one.
pub open spec fn all_mock(items: Seq<News>) -> bool {
    forall|i: int| 0 <= i < items.len() ==> is_mock(#[trigger] items[i]@)
}

/// Fills an empty cache with made-up articles, for a demonstration without
/// the service. A cache that holds an answer is left as it is.
pub fn read_f(api: &mut Api)
    ensures
        final(api).request() == old(api).request(),
        final(api).last_query() == old(api).last_query(),
        old(api).response() is Some ==> final(api).response() == old(api).response(),
        old(api).response() is None ==> {
            &&& final(api).response() is Some
            &&& final(api).response()->Some_0.status_text() == "ok"@
            &&& final(api).response()->Some_0.articles().len() == MOCK_ARTICLES
            &&& all_mock(final(api).response()->Some_0.articles())
        },
{
    if api.response.is_none() {
        let mut vec: Vec<News> = Vec::new();
        let mut k: usize = 0;
        while k < MOCK_ARTICLES
            invariant
                k <= MOCK_ARTICLES,
                vec@.len() == k,
                all_mock(vec@),
            decreases MOCK_ARTICLES - k,
        {
            vec.push(News::mock());
            k = k + 1;
        }
        api.response = Some(ApiResponse::new("ok".to_owned(), vec));
    }
}

/// Setting the request changes the request and nothing else.
pub proof fn lemma_with_request(api: Api, req: ApiRequest)
    ensures
        api.with_request(req).request() == req,
        api.with_request(req).response() == api.response(),
        api.with_request(req).last_query() == api.last_query(),
        api.with_request(api.request()) == api,
{
}

/// After a good answer has been installed, a read of the same request asks
/// nothing of the service: the cache answers it.
pub proof fn lemma_read_after_success_is_cached(
    before: Api,
    outcome: FetchOutcome,
    after: Api,
    base: Seq<char>,
)
    requires
        installed(before, outcome, after),
        outcome_result(outcome) is Ok,
    ensures
        after.is_fresh(),
        planned(after, base) == Ok::<Option<Seq<char>>, ApiError>(None),
{
}

/// Once the request differs from the one that the cache answers, a read does
/// not use the cache: it asks the service, at the address of the new request.
pub proof fn lemma_changed_request_is_fetched(api: Api, changed: ApiRequest, base: Seq<char>)
    requires
        api.is_fresh(),
        changed != api.request(),
    ensures
        ({
            let moved = api.with_request(changed);
            &&& !moved.is_fresh()
            &&& planned(moved, base) != Ok::<Option<Seq<char>>, ApiError>(None)
            &&& built_address(base, changed) is Some ==> planned(moved, base) == Ok::<
                Option<Seq<char>>,
                ApiError,
            >(built_address(base, changed))
        }),
{
}

/// A good answer replaces the cache whole: what is cached afterwards is the
/// new answer's articles, whatever was cached before.
pub proof fn lemma_success_replaces_cache(
    before: Api,
    outcome: FetchOutcome,
    after: Api,
    articles: Seq<News>,
)
    requires
        installed(before, outcome, after),
        outcome_result(outcome) == Ok::<Seq<News>, ApiError>(articles),
    ensures
        after.response() is Some,
        after.response()->Some_0.articles() == articles,
        after.last_query() == (before.request().end_point, before.request().country),
{
}

/// A failed request changes nothing: the cached answer, the request it was
/// asked with and the request as it stands are what they were.
pub proof fn lemma_failure_keeps_cache(before: Api, outcome: FetchOutcome, after: Api)
    requires
        installed(before, outcome, after),
        outcome_result(outcome) is Err,
    ensures
        after == before,
        after.response() == before.response(),
        after.last_query() == before.last_query(),
        report(outcome) is Err,
{
}

} // verus!
