use news_feed::address::{checked_address, has_request_shape, prep_url, MAX_BASE_LENGTH};
use news_feed::client::{get_key, FetchOutcome, NewsApi, ResponseBody};
use news_feed::error::{ApiError, RejectionCause};
use news_feed::request::{ApiRequest, Fils, Locs};
use news_feed::article::News;

const BASE: &str = "https://newsapi.org/v2";

fn request(country: Locs, end_point: Fils) -> ApiRequest {
    ApiRequest { country, end_point }
}

#[test]
fn address_of_the_first_request() {
    let url = prep_url(BASE, &request(Locs::US, Fils::HEADLINES));
    assert_eq!(url, Ok("https://newsapi.org/v2/top-headlines?country=us".to_string()));
}

#[test]
fn address_of_every_request() {
    for ep in Fils::get_endpoints() {
        for cn in Locs::get_countries() {
            let url = prep_url(BASE, &request(cn, ep)).unwrap();
            let expected = format!("{}/{}?country={}", BASE, ep.to_string(), cn.to_string());
            assert_eq!(url, expected);
            let (path, query) = url.split_once('?').unwrap();
            let segment = ep.to_string();
            assert_eq!(path.split('/').filter(|s| *s == segment.as_str()).count(), 1);
            let params: Vec<&str> = query.split('&').collect();
            assert_eq!(params, vec![format!("country={}", cn.to_string()).as_str()]);
        }
    }
}

#[test]
fn address_replaces_a_query_of_the_base_and_keeps_its_path() {
    let url = prep_url("https://example.org/api/v9?page=2", &request(Locs::JAPAN, Fils::EVERTHING));
    assert_eq!(url, Ok("https://example.org/api/v9/everything?country=jp".to_string()));
    let root = prep_url("https://example.org", &request(Locs::CANADA, Fils::HEADLINES));
    assert_eq!(root, Ok("https://example.org/top-headlines?country=ca".to_string()));
}

#[test]
fn a_base_that_is_no_address_is_refused() {
    let req = request(Locs::US, Fils::HEADLINES);
    assert_eq!(prep_url("not an address", &req), Err(ApiError::MalformedBaseAddress));
    assert_eq!(prep_url("", &req), Err(ApiError::MalformedBaseAddress));
    assert_eq!(prep_url("mailto:desk@example.org", &req), Err(ApiError::MalformedBaseAddress));
}

#[test]
fn wire_names_of_feeds_and_markets() {
    assert_eq!(Fils::HEADLINES.to_string(), "top-headlines");
    assert_eq!(Fils::EVERTHING.to_string(), "everything");
    assert_eq!(Locs::US.to_string(), "us");
    assert_eq!(Locs::JAPAN.to_string(), "jp");
    assert_eq!(Locs::CANADA.to_string(), "ca");
    assert_eq!(Locs::GREATBRITAIN.to_string(), "gb");
    assert_eq!(Locs::RUSSIA.to_string(), "rs");
    assert_eq!(Locs::CHINA.to_string(), "cn");
}

#[test]
fn menus_list_every_value_once() {
    assert_eq!(Fils::get_endpoints(), [Fils::HEADLINES, Fils::EVERTHING]);
    assert_eq!(
        Locs::get_countries(),
        [Locs::US, Locs::JAPAN, Locs::CANADA, Locs::CHINA, Locs::GREATBRITAIN, Locs::RUSSIA]
    );
}

#[test]
fn request_fields_are_changed_in_place() {
    let mut req = request(Locs::US, Fils::HEADLINES);
    *req.ep() = Fils::EVERTHING;
    assert_eq!(req, request(Locs::US, Fils::EVERTHING));
    *req.cn() = Locs::CHINA;
    assert_eq!(req, request(Locs::CHINA, Fils::EVERTHING));
}

#[test]
fn a_disabled_credential_is_recognised() {
    let code = Some("apiKeyDisabled".to_string());
    assert_eq!(
        NewsApi::map_request_error(&code),
        ApiError::UpstreamRejected(RejectionCause::CredentialDisabled)
    );
}

#[test]
fn any_other_code_is_an_unknown_cause() {
    for code in ["apiKeyInvalid", "rateLimited", "", "apikeydisabled", "apiKeyDisabled "] {
        assert_eq!(
            NewsApi::map_request_error(&Some(code.to_string())),
            ApiError::UpstreamRejected(RejectionCause::Unknown)
        );
    }
    assert_eq!(
        NewsApi::map_request_error(&None),
        ApiError::UpstreamRejected(RejectionCause::Unknown)
    );
}

fn body(status: &str, code: Option<&str>, titles: &[&str]) -> ResponseBody {
    ResponseBody {
        status: status.to_string(),
        code: code.map(|c| c.to_string()),
        articles: titles
            .iter()
            .map(|t| News::new(t.to_string(), "Desk".to_string(), None, None, format!("/{}", t)))
            .collect(),
    }
}

#[test]
fn a_good_answer_gives_its_articles() {
    let res = NewsApi::fetch(FetchOutcome::Answered(body("ok", None, &["a", "b"]))).unwrap();
    assert_eq!(res.get_status(), "ok");
    let titles: Vec<&str> = res.get_articles().iter().map(|n| n.get_title()).collect();
    assert_eq!(titles, vec!["a", "b"]);
}

#[test]
fn a_refusal_is_classified() {
    let refused = NewsApi::fetch(FetchOutcome::Answered(body("error", Some("apiKeyDisabled"), &[])));
    assert_eq!(
        refused.err(),
        Some(ApiError::UpstreamRejected(RejectionCause::CredentialDisabled))
    );
    let other = NewsApi::fetch(FetchOutcome::Answered(body("error", Some("sourcesTooMany"), &[])));
    assert_eq!(other.err(), Some(ApiError::UpstreamRejected(RejectionCause::Unknown)));
    let bare = NewsApi::fetch(FetchOutcome::Answered(body("OK", None, &["a"])));
    assert_eq!(bare.err(), Some(ApiError::UpstreamRejected(RejectionCause::Unknown)));
}

#[test]
fn failures_of_the_request_keep_their_kind() {
    assert_eq!(
        NewsApi::fetch(FetchOutcome::TransportFailed).err(),
        Some(ApiError::TransportFailure)
    );
    assert_eq!(
        NewsApi::fetch(FetchOutcome::DecodeFailed).err(),
        Some(ApiError::ResponseDecodeFailure)
    );
}

#[test]
fn the_client_keeps_what_it_was_made_with() {
    let client = NewsApi::new(BASE.to_string(), "k-123".to_string());
    assert_eq!(client.get_address(), BASE);
    assert_eq!(get_key(&client), "k-123");
    assert_eq!(
        client.request_url(&request(Locs::GREATBRITAIN, Fils::EVERTHING)),
        Ok("https://newsapi.org/v2/everything?country=gb".to_string())
    );
    let broken = NewsApi::new("::".to_string(), String::new());
    assert_eq!(
        broken.request_url(&request(Locs::US, Fils::HEADLINES)),
        Err(ApiError::MalformedBaseAddress)
    );
}

#[test]
fn every_error_has_its_sentence() {
    assert_eq!(ApiError::MalformedBaseAddress.message(), "Could not parse given string into url");
    assert_eq!(ApiError::TransportFailure.message(), "Could not fetch articles");
    assert_eq!(ApiError::ResponseDecodeFailure.message(), "Could not parse articles");
    assert_eq!(
        ApiError::UpstreamRejected(RejectionCause::CredentialDisabled).message(),
        "Request failed Api key disabled"
    );
    assert_eq!(
        ApiError::UpstreamRejected(RejectionCause::Unknown).message(),
        "Request failed Unknown Error"
    );
    assert_eq!(ApiError::NoDataAvailable.message(), "No data available");
}

#[test]
fn an_address_of_the_right_shape_is_recognised() {
    let us = request(Locs::US, Fils::HEADLINES);
    assert!(has_request_shape("https://newsapi.org/v2/top-headlines?country=us", &us));
    assert!(has_request_shape("https://newsapi.org/v2/top-headlines?country=us#top", &us));
    assert!(has_request_shape("/top-headlines?country=us", &us));
    assert!(has_request_shape("https://h/everything/top-headlines?country=us", &us));
}

#[test]
fn an_address_of_another_shape_is_not() {
    let us = request(Locs::US, Fils::HEADLINES);
    assert!(!has_request_shape("", &us));
    assert!(!has_request_shape("https://newsapi.org/v2", &us));
    assert!(!has_request_shape("https://newsapi.org/v2/top-headlines", &us));
    assert!(!has_request_shape("https://newsapi.org/v2/top-headlines?country=jp", &us));
    assert!(!has_request_shape("https://newsapi.org/v2/everything?country=us", &us));
    assert!(!has_request_shape("https://newsapi.org/v2/top-headlines?country=us&page=2", &us));
    assert!(!has_request_shape("https://newsapi.org/v2/top-headlines?country=usa", &us));
    assert!(!has_request_shape("https://newsapi.org/v2/top-headlines?page=2&country=us", &us));
    assert!(!has_request_shape("https://newsapi.org/v2/xtop-headlines?country=us", &us));
    assert!(!has_request_shape("top-headlines?country=us", &us));
    assert!(!has_request_shape("https://h/#/top-headlines?country=us", &us));
    assert!(!has_request_shape("https://h/top-headlines/?country=us", &us));
}

#[test]
fn an_address_carries_no_second_request() {
    let url = prep_url(BASE, &request(Locs::CHINA, Fils::EVERTHING)).unwrap();
    let mut carried = 0;
    for ep in Fils::get_endpoints() {
        for cn in Locs::get_countries() {
            if has_request_shape(&url, &request(cn, ep)) {
                carried += 1;
                assert_eq!((cn, ep), (Locs::CHINA, Fils::EVERTHING));
            }
        }
    }
    assert_eq!(carried, 1);
}

#[test]
fn the_joined_address_is_kept_only_where_it_carries_the_request() {
    let us = request(Locs::US, Fils::HEADLINES);
    let good = "https://newsapi.org/v2/top-headlines?country=us".to_string();
    assert_eq!(checked_address(Some(good.clone()), &us), Ok(good));
    assert_eq!(
        checked_address(Some("https://newsapi.org/v2".to_string()), &us),
        Err(ApiError::MalformedBaseAddress)
    );
    assert_eq!(checked_address(None, &us), Err(ApiError::MalformedBaseAddress));
}

#[test]
fn an_over_long_base_is_refused() {
    let mut base = String::from("https://example.org/");
    while base.len() <= MAX_BASE_LENGTH {
        base.push_str("aaaaaaaaaaaaaaaaaaaaaaaaaaaaaaaaaaaaaaaaaaaaaaaaaaaaaaaaaaaaaaaa");
    }
    let req = request(Locs::US, Fils::HEADLINES);
    assert_eq!(prep_url(&base, &req), Err(ApiError::MalformedBaseAddress));
    assert_eq!(MAX_BASE_LENGTH, 16_777_216);
}

#[test]
fn a_base_with_a_fragment_keeps_it_behind_the_query() {
    let url = prep_url("https://example.org/v2#news", &request(Locs::US, Fils::HEADLINES));
    assert_eq!(url, Ok("https://example.org/v2/top-headlines?country=us#news".to_string()));
}
