use crate::error::ApiError;
use crate::request::{ApiRequest, Locs};
use crate::text::{chars_of, starts_at};
use url::Url;
use vstd::prelude::*;
use vstd::string::*;

verus! {

/// The address that the `url` crate makes of a base address, one more path
/// segment and a query: what `Url::parse` reads from `base`, after
/// `PathSegmentsMut::push` has appended `segment` to its path and
/// `Url::set_query` has replaced its query by `query`, written out again.
/// `None` where `Url::parse` refuses `base`, or reads from it an address to
/// which no path can be appended.
pub uninterp spec fn address_with(base: Seq<char>, segment: Seq<char>, query: Seq<char>) -> Option<
    Seq<char>,
>;

/// The longest base address that is handed to the `url` crate, in
/// characters. The crate counts the bytes of an address in 32 bits and gives
/// up where they do not fit; no address comes near this length.
pub const MAX_BASE_LENGTH: usize = 0x100_0000;

/// Calls `Url::parse` on `base`, then `Url::path_segments_mut` and
/// `PathSegmentsMut::push` with `segment`, `Url::set_query` with `query`, and
/// writes the address out with `to_string`. Nothing is claimed of the text
/// but that it depends on the three arguments alone; the two failures of the
/// crate (a base that does not parse, a base that takes no path) come back
/// as `None`. The lengths are bounded because the crate panics where an
/// address outgrows its 32-bit positions.
#[verifier::external_body]
fn join_address(base: &str, segment: &str, query: &str) -> (r: Option<String>)
    requires
        base@.len() <= MAX_BASE_LENGTH,
        segment@.len() <= 16,
        query@.len() <= 16,
    ensures
        match r {
            Some(s) => address_with(base@, segment@, query@) == Some(s@),
            None => address_with(base@, segment@, query@) is None,
        },
{
    let mut url = Url::parse(base).ok()?;
    url.path_segments_mut().ok()?.push(segment);
    url.set_query(Some(query));
    Some(url.to_string())
}

/// The query of a request: the one parameter `country`, with the market's code.
pub open spec fn country_query(country: Locs) -> Seq<char> {
    "country="@ + country.text()
}

/// The address of a request under `base`, where there is one.
pub open spec fn request_address(base: Seq<char>, req: ApiRequest) -> Option<Seq<char>> {
    address_with(base, req.end_point.text(), country_query(req.country))
}

/// A text of lower-case letters and hyphens: it is one path segment, or one
/// value of a query parameter, and nothing in it needs escaping.
pub open spec fn is_plain_word(s: Seq<char>) -> bool {
    s.len() > 0 && forall|i: int|
        0 <= i < s.len() ==> ('a' <= #[trigger] s[i] && s[i] <= 'z') || s[i] == '-'
}

/// The characters that end the path of an address.
pub open spec fn is_mark(c: char) -> bool {
    c == '?' || c == '#'
}

/// A text without the characters that end a path.
pub open spec fn no_mark(s: Seq<char>) -> bool {
    forall|i: int| 0 <= i < s.len() ==> !is_mark(#[trigger] s[i])
}

/// What a request adds to a base address: a slash and the feed's segment,
/// a question mark and the query.
pub open spec fn request_text(req: ApiRequest) -> Seq<char> {
    seq!['/'] + req.end_point.text() + seq!['?'] + country_query(req.country)
}

/// `url` is `head`, then the request's text, then `tail`, where `head` runs
/// up to the path's last slash and `tail` is nothing or a fragment.
pub open spec fn splits_as(url: Seq<char>, req: ApiRequest, head: Seq<char>, tail: Seq<char>) -> bool {
    &&& url == head + request_text(req) + tail
    &&& no_mark(head)
    &&& (tail.len() == 0 || tail[0] == '#')
}

/// The address `url` carries the request `req`: its path ends in a slash and
/// the feed's segment, and its query is `country=` and the market's code,
/// with nothing else in it.
pub open spec fn carries_request(url: Seq<char>, req: ApiRequest) -> bool {
    exists|head: Seq<char>, tail: Seq<char>| #[trigger] splits_as(url, req, head, tail)
}

/// The address that is built for `req` under `base`: what the `url` crate
/// makes of them, where `base` is not over-long and the result carries the
/// request.
pub open spec fn built_address(base: Seq<char>, req: ApiRequest) -> Option<Seq<char>> {
    if base.len() > MAX_BASE_LENGTH {
        None
    } else {
        match request_address(base, req) {
            Some(text) => if carries_request(text, req) {
                Some(text)
            } else {
                None
            },
            None => None,
        }
    }
}

/// The place of the first `?` or `#` of `url`, or its length where it has none.
fn first_mark(url: &Vec<char>) -> (p: usize)
    ensures
        p <= url@.len(),
        no_mark(url@.take(p as int)),
        p < url@.len() ==> is_mark(url@[p as int]),
{
    let mut p: usize = 0;
    while p < url.len()
        invariant
            p <= url@.len(),
            no_mark(url@.take(p as int)),
        decreases url@.len() - p,
    {
        let c = url[p];
        if c == '?' || c == '#' {
            return p;
        }
        assert forall|i: int| 0 <= i < p + 1 implies !is_mark(#[trigger] url@.take(p + 1)[i]) by {
            if i < p {
                assert(url@.take(p as int)[i] == url@[i]);
            }
        }
        p = p + 1;
    }
    p
}

/// In an address that splits as a request's text after `head`, the path ends
/// where that text has its question mark.
proof fn lemma_split_place(url: Seq<char>, req: ApiRequest, head: Seq<char>, tail: Seq<char>, p: int)
    requires
        splits_as(url, req, head, tail),
        0 <= p <= url.len(),
        no_mark(url.take(p)),
        p < url.len() ==> is_mark(url[p]),
    ensures
        p == head.len() + 1 + req.end_point.text().len(),
        url.len() == head.len() + request_text(req).len() + tail.len(),
        request_text(req).len() == req.end_point.text().len() + 12,
{
    lemma_request_parts_are_single(req);
    let seg = req.end_point.text();
    let place: int = (head.len() + 1 + seg.len()) as int;
    assert(url[place] == '?');
    assert forall|j: int| 0 <= j < place implies !is_mark(#[trigger] url[j]) by {
        if j < head.len() {
            assert(url[j] == head[j]);
        } else if j == head.len() {
            assert(url[j] == '/');
        } else {
            assert(url[j] == seg[j - head.len() - 1]);
        }
    }
    if p < place {
        assert(!is_mark(url[p]));
    }
    if p > place {
        assert(url.take(p)[place] == url[place]);
    }
}

/// Tells whether the address `url` carries the request `req`.
pub fn has_request_shape(url: &str, req: &ApiRequest) -> (r: bool)
    ensures
        r == carries_request(url@, *req),
{
    let segment = req.end_point.to_string();
    let code = req.country.to_string();
    let mut text = "/".to_owned();
    text.append(segment.as_str());
    text.append("?country=");
    text.append(code.as_str());
    proof {
        reveal_strlit("/");
        reveal_strlit("?country=");
        reveal_strlit("country=");
        lemma_request_parts_are_single(*req);
        assert(text@ =~= request_text(*req));
    }
    let part = chars_of(text.as_str());
    let all = chars_of(url);
    let n: usize = all.len();
    let m: usize = part.len();
    let before: usize = m - 11;
    let p: usize = first_mark(&all);
    let mut found = false;
    if p < n && p >= before && n - (p - before) >= m {
        let start: usize = p - before;
        if starts_at(&all, &part, start) {
            let closed = if start + m < n {
                all[start + m] == '#'
            } else {
                true
            };
            if closed {
                found = true;
                proof {
                    let head = url@.take(start as int);
                    let tail = url@.skip(start + m);
                    assert(url@ =~= head + request_text(*req) + tail);
                    assert forall|i: int| 0 <= i < head.len() implies !is_mark(
                        #[trigger] head[i],
                    ) by {
                        assert(url@.take(p as int)[i] == head[i]);
                    }
                    assert(splits_as(url@, *req, head, tail));
                }
            }
        }
    }
    proof {
        if !found && carries_request(url@, *req) {
            let (head, tail) = choose|head: Seq<char>, tail: Seq<char>| #[trigger]
                splits_as(url@, *req, head, tail);
            lemma_split_place(url@, *req, head, tail, p as int);
            let start = head.len() as int;
            assert(url@.subrange(start, start + m) =~= part@);
            if tail.len() > 0 {
                assert(url@[start + m] == tail[0]);
            }
        }
    }
    found
}

/// What is made of the `url` crate's answer: the address, where there is one
/// and it carries the request; else the refusal of the base address.
pub fn checked_address(joined: Option<String>, req: &ApiRequest) -> (r: Result<String, ApiError>)
    ensures
        match joined {
            Some(s) => if carries_request(s@, *req) {
                r == Ok::<String, ApiError>(s)
            } else {
                r == Err::<String, ApiError>(ApiError::MalformedBaseAddress)
            },
            None => r == Err::<String, ApiError>(ApiError::MalformedBaseAddress),
        },
{
    match joined {
        Some(s) => {
            if has_request_shape(s.as_str(), req) {
                Ok(s)
            } else {
                Err(ApiError::MalformedBaseAddress)
            }
        },
        None => Err(ApiError::MalformedBaseAddress),
    }
}

/// The address of the request `req` under the base address `base`: the base,
/// one more path segment for the feed, and the query `country=` with the
/// market's code. A base that is no address to append to is refused, and so
/// is one that is over-long or with which the address would not carry the
/// request.
pub fn prep_url(base: &str, req: &ApiRequest) -> (r: Result<String, ApiError>)
    ensures
        match built_address(base@, *req) {
            Some(text) => r matches Ok(s) && s@ == text,
            None => r == Err::<String, ApiError>(ApiError::MalformedBaseAddress),
        },
        r matches Ok(s) ==> carries_request(s@, *req),
{
    if base.unicode_len() > MAX_BASE_LENGTH {
        return Err(ApiError::MalformedBaseAddress);
    }
    let segment = req.end_point.to_string();
    let code = req.country.to_string();
    let mut query = "country=".to_owned();
    query.append(code.as_str());
    proof {
        lemma_request_parts_are_single(*req);
        reveal_strlit("top-headlines");
        reveal_strlit("everything");
    }
    checked_address(join_address(base, segment.as_str(), query.as_str()), req)
}

/// Whatever the request, what goes into its address is one path segment and
/// one query parameter: the feed's segment is a plain word, the market's code
/// is a plain word of two letters, and the query is `country=` and that code.
pub proof fn lemma_request_parts_are_single(req: ApiRequest)
    ensures
        is_plain_word(req.end_point.text()),
        is_plain_word(req.country.text()),
        req.country.text().len() == 2,
        country_query(req.country).len() == 10,
        country_query(req.country).subrange(0, 8) == "country="@,
        country_query(req.country).subrange(8, 10) == req.country.text(),
{
    reveal_strlit("top-headlines");
    reveal_strlit("everything");
    reveal_strlit("us");
    reveal_strlit("jp");
    reveal_strlit("ca");
    reveal_strlit("gb");
    reveal_strlit("rs");
    reveal_strlit("cn");
    reveal_strlit("country=");
    assert(country_query(req.country).subrange(0, 8) =~= "country="@);
    assert(country_query(req.country).subrange(8, 10) =~= req.country.text());
}

/// Two different feeds have different segments, and two different markets
/// different codes: the address tells the requests apart as far as its parts do.
pub proof fn lemma_request_parts_tell_apart(a: ApiRequest, b: ApiRequest)
    requires
        a != b,
    ensures
        a.end_point.text() != b.end_point.text() || a.country.text() != b.country.text(),
{
    reveal_strlit("top-headlines");
    reveal_strlit("everything");
    reveal_strlit("us");
    reveal_strlit("jp");
    reveal_strlit("ca");
    reveal_strlit("gb");
    reveal_strlit("rs");
    reveal_strlit("cn");
    if a.end_point != b.end_point {
        assert(a.end_point.text().len() != b.end_point.text().len());
    } else {
        assert(a.country != b.country);
        assert(a.country.text()[0] != b.country.text()[0] || a.country.text()[1]
            != b.country.text()[1]);
    }
}

/// An address carries one request at most: where it carries two, they are
/// the same feed and the same market. So the address built for a request has
/// that request's segment at the end of its path and that request's market
/// as its one parameter, and no other's.
pub proof fn lemma_address_carries_one_request(url: Seq<char>, a: ApiRequest, b: ApiRequest)
    requires
        carries_request(url, a),
        carries_request(url, b),
    ensures
        a == b,
{
    let (head_a, tail_a) = choose|head: Seq<char>, tail: Seq<char>| #[trigger]
        splits_as(url, a, head, tail);
    let (head_b, tail_b) = choose|head: Seq<char>, tail: Seq<char>| #[trigger]
        splits_as(url, b, head, tail);
    let p: int = (head_a.len() + 1 + a.end_point.text().len()) as int;
    lemma_request_parts_are_single(a);
    lemma_request_parts_are_single(b);
    assert(url[p] == '?');
    assert forall|j: int| 0 <= j < p implies !is_mark(#[trigger] url.take(p)[j]) by {
        if j < head_a.len() {
            assert(url[j] == head_a[j]);
        } else if j == head_a.len() {
            assert(url[j] == '/');
        } else {
            assert(url[j] == a.end_point.text()[j - head_a.len() - 1]);
        }
    }
    lemma_split_place(url, b, head_b, tail_b, p);
    reveal_strlit("top-headlines");
    reveal_strlit("everything");
    if a.end_point != b.end_point {
        let shorter: int = if a.end_point.text().len() < b.end_point.text().len() {
            a.end_point.text().len() as int
        } else {
            b.end_point.text().len() as int
        };
        let slash: int = p - 1 - shorter;
        if a.end_point.text().len() < b.end_point.text().len() {
            assert(url[slash] == '/');
            assert(url[slash] == b.end_point.text()[slash - head_b.len() - 1]);
        } else {
            assert(url[slash] == '/');
            assert(url[slash] == a.end_point.text()[slash - head_a.len() - 1]);
        }
    }
    if a.country != b.country {
        lemma_request_parts_tell_apart(
            ApiRequest { country: a.country, end_point: a.end_point },
            ApiRequest { country: b.country, end_point: a.end_point },
        );
        let ca = a.country.text();
        let cb = b.country.text();
        assert(url[p + 9] == country_query(a.country)[8]);
        assert(url[p + 10] == country_query(a.country)[9]);
        assert(url[p + 9] == country_query(b.country)[8]);
        assert(url[p + 10] == country_query(b.country)[9]);
        assert(country_query(a.country).subrange(8, 10)[0] == ca[0]);
        assert(country_query(a.country).subrange(8, 10)[1] == ca[1]);
        assert(country_query(b.country).subrange(8, 10)[0] == cb[0]);
        assert(country_query(b.country).subrange(8, 10)[1] == cb[1]);
        assert(ca =~= cb);
    }
}

/// Every address that is built for a request carries that request.
pub proof fn lemma_built_address_carries_request(base: Seq<char>, req: ApiRequest)
    ensures
        built_address(base, req) matches Some(url) ==> carries_request(url, req),
{
}

} // verus!
