use http::{HeaderMap, HeaderValue};
use rust_repos::headers::{HeaderError, HeaderProblem, RateLimitHeader};
use rust_repos::response::{RateLimitInfo, ResponseError};

fn headers() -> HeaderMap<HeaderValue> {
    let mut headers = HeaderMap::new();
    headers.insert("x-ratelimit-limit", HeaderValue::from_static("5000"));
    headers.insert("x-ratelimit-used", HeaderValue::from_static("12"));
    headers.insert("x-ratelimit-remaining", HeaderValue::from_static("4988"));
    headers.insert("x-ratelimit-resource", HeaderValue::from_static("core"));
    headers
}

fn header_error(headers: &HeaderMap<HeaderValue>) -> HeaderError {
    match RateLimitInfo::from_headers(headers, ()) {
        Err(error) => error,
        Ok(info) => panic!("{:?}", info),
    }
}

#[test]
fn rate_limit_is_read() {
    let info = RateLimitInfo::from_headers(&headers(), 'x').unwrap();
    assert_eq!(info.content, 'x');
    assert_eq!(info.limit, 5000);
    assert_eq!(info.used, 12);
    assert_eq!(info.remaining, 4988);
    assert_eq!(info.resource, "core");
}

#[test]
fn header_names_are_taken_in_any_case() {
    let mut odd = HeaderMap::new();
    for (name, value) in headers().iter() {
        let name = http::header::HeaderName::from_bytes(name.as_str().to_uppercase().as_bytes());
        odd.insert(name.unwrap(), value.clone());
    }
    assert_eq!(RateLimitInfo::from_headers(&odd, ()).unwrap().used, 12);
}

#[test]
fn first_value_of_a_header_counts() {
    let mut headers = headers();
    headers.append("x-ratelimit-used", HeaderValue::from_static("13"));
    assert_eq!(RateLimitInfo::from_headers(&headers, ()).unwrap().used, 12);
}

#[test]
fn missing_headers_are_told() {
    let all = [
        RateLimitHeader::Limit,
        RateLimitHeader::Used,
        RateLimitHeader::Remaining,
        RateLimitHeader::Resource,
    ];
    for header in all {
        let mut headers = headers();
        headers.remove(header.name()).unwrap();
        let problem = HeaderProblem::Missing;
        assert_eq!(header_error(&headers), HeaderError { header, problem });
    }
}

#[test]
fn first_problem_is_told() {
    let mut headers = headers();
    headers.remove("x-ratelimit-resource");
    headers.remove("x-ratelimit-remaining");
    headers.insert("x-ratelimit-used", HeaderValue::from_static("-1"));
    assert_eq!(
        header_error(&headers),
        HeaderError {
            header: RateLimitHeader::Used,
            problem: HeaderProblem::NotANumber,
        }
    );
}

#[test]
fn values_that_are_not_text_are_told() {
    let mut headers = headers();
    headers.insert(
        "x-ratelimit-resource",
        HeaderValue::from_bytes(b"caf\xe9").unwrap(),
    );
    assert_eq!(
        header_error(&headers),
        HeaderError {
            header: RateLimitHeader::Resource,
            problem: HeaderProblem::NotText,
        }
    );
    headers.insert("x-ratelimit-resource", HeaderValue::from_static("a\tb ~"));
    let info = RateLimitInfo::from_headers(&headers, ()).unwrap();
    assert_eq!(info.resource, "a\tb ~");
}

#[test]
fn body_is_read_as_json() {
    let info = RateLimitInfo::from_response(&headers(), b"{\"sha\": [1, null]}").unwrap();
    assert_eq!(info.content["sha"][0], 1);
    assert!(info.content["sha"][1].is_null());
    assert_eq!(info.limit, 5000);
    assert_eq!(info.resource, "core");
    let again = RateLimitInfo::try_from_response(&headers(), b"{\"sha\": [1, null]}").unwrap();
    assert_eq!(again.content, info.content);
    assert_eq!((again.used, again.remaining), (12, 4988));
}

#[test]
fn body_that_is_no_json_is_told() {
    for body in ["", "{", "{} {}", "sha"] {
        let expected = serde_json::from_slice::<serde_json::Value>(body.as_bytes()).unwrap_err();
        let error = RateLimitInfo::from_response(&headers(), body.as_bytes()).unwrap_err();
        assert_eq!(error.to_string(), expected.to_string());
        match RateLimitInfo::try_from_response(&headers(), body.as_bytes()) {
            Err(ResponseError::Body(error)) => assert_eq!(error.to_string(), expected.to_string()),
            other => panic!("{:?}", other),
        }
    }
}

#[test]
fn headers_come_before_the_body() {
    match RateLimitInfo::try_from_response(&HeaderMap::new(), b"{") {
        Err(ResponseError::Headers(error)) => assert_eq!(error.header, RateLimitHeader::Limit),
        other => panic!("{:?}", other),
    }
}

#[test]
fn content_is_replaced() {
    let info = RateLimitInfo::from_headers(&headers(), 1u8).unwrap();
    let info = info.with_content("two");
    assert_eq!(info.content, "two");
    assert_eq!((info.limit, info.used, info.remaining), (5000, 12, 4988));
    assert_eq!(info.resource, "core");
}
