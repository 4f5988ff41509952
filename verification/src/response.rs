//! Responses that tell about the rate limit beside their content.

use http::{HeaderMap, HeaderValue};
use serde_json::Value;
use vstd::prelude::*;

use crate::headers::{
    ascii_text, header_contents, names_are_in_lower_case, HeaderError, RateLimitHeader,
};
use crate::text::{decimal_value, without_plus};

verus! {

/// `serde_json::Value`, any JSON value. Nothing is claimed of it.
#[verifier::external_type_specification]
#[verifier::external_body]
pub struct ExValue(serde_json::Value);

/// `serde_json::Error`, why bytes are no JSON. Nothing is claimed of it.
#[verifier::external_type_specification]
#[verifier::external_body]
pub struct ExJsonError(serde_json::Error);

/// The JSON value that `serde_json::from_slice` reads in bytes, or why it refuses them.
pub uninterp spec fn parsed_json(bytes: Seq<u8>) -> Result<Value, serde_json::Error>;

/// Calls `serde_json::from_slice`, which depends on nothing but the bytes: it accepts the same
/// bytes every time, and reads the same value in them or finds the same fault with them. Which
/// bytes it accepts is not stated here.
#[verifier::external_body]
fn parse_json(bytes: &[u8]) -> (r: Result<Value, serde_json::Error>)
    ensures
        r == parsed_json(bytes@),
{
    serde_json::from_slice(bytes)
}

/// The content of a response, with what its headers tell about the rate limit.
#[derive(Debug)]
pub struct RateLimitInfo<T> {
    pub content: T,
    /// How many requests are allowed in all.
    pub limit: u32,
    /// How many of them have been made.
    pub used: u32,
    /// How many of them are left.
    pub remaining: u32,
    /// What the limit is for.
    pub resource: String,
}

/// Why a response cannot be read.
#[derive(Debug)]
pub enum ResponseError {
    /// The headers do not tell the rate limit.
    Headers(HeaderError),
    /// The body is no JSON.
    Body(serde_json::Error),
}

/// The first of the four headers that is not as it should be.
pub open spec fn first_header_error(headers: HeaderMap<HeaderValue>) -> Option<HeaderError> {
    if RateLimitHeader::Limit.number_in(headers) is Err {
        Some(RateLimitHeader::Limit.number_in(headers)->Err_0)
    } else if RateLimitHeader::Used.number_in(headers) is Err {
        Some(RateLimitHeader::Used.number_in(headers)->Err_0)
    } else if RateLimitHeader::Remaining.number_in(headers) is Err {
        Some(RateLimitHeader::Remaining.number_in(headers)->Err_0)
    } else if RateLimitHeader::Resource.text_in(headers) is Err {
        Some(RateLimitHeader::Resource.text_in(headers)->Err_0)
    } else {
        None
    }
}

impl<T> RateLimitInfo<T> {
    /// The rate limit is the one that the headers tell.
    pub open spec fn is_told_by(&self, headers: HeaderMap<HeaderValue>) -> bool {
        &&& RateLimitHeader::Limit.number_in(headers) == Ok::<u32, HeaderError>(self.limit)
        &&& RateLimitHeader::Used.number_in(headers) == Ok::<u32, HeaderError>(self.used)
        &&& RateLimitHeader::Remaining.number_in(headers) == Ok::<u32, HeaderError>(self.remaining)
        &&& RateLimitHeader::Resource.text_in(headers) == Ok::<Seq<char>, HeaderError>(
            self.resource@,
        )
    }

    /// Reads the rate limit in the headers of a response with the given content.
    pub fn from_headers(headers: &HeaderMap<HeaderValue>, content: T) -> (r: Result<
        RateLimitInfo<T>,
        HeaderError,
    >)
        ensures
            match r {
                Ok(info) => {
                    let told = header_contents(*headers);
                    &&& first_header_error(*headers) is None
                    &&& info.is_told_by(*headers)
                    &&& told.contains_key("x-ratelimit-limit"@)
                    &&& info.limit as nat == decimal_value(
                        without_plus(ascii_text(told["x-ratelimit-limit"@][0])),
                    )
                    &&& told.contains_key("x-ratelimit-used"@)
                    &&& info.used as nat == decimal_value(
                        without_plus(ascii_text(told["x-ratelimit-used"@][0])),
                    )
                    &&& told.contains_key("x-ratelimit-remaining"@)
                    &&& info.remaining as nat == decimal_value(
                        without_plus(ascii_text(told["x-ratelimit-remaining"@][0])),
                    )
                    &&& told.contains_key("x-ratelimit-resource"@)
                    &&& info.resource@ == ascii_text(told["x-ratelimit-resource"@][0])
                    &&& info.content == content
                },
                Err(error) => first_header_error(*headers) == Some(error),
            },
    {
        let limit = match RateLimitHeader::Limit.read_number(headers) {
            Ok(limit) => limit,
            Err(error) => return Err(error),
        };
        let used = match RateLimitHeader::Used.read_number(headers) {
            Ok(used) => used,
            Err(error) => return Err(error),
        };
        let remaining = match RateLimitHeader::Remaining.read_number(headers) {
            Ok(remaining) => remaining,
            Err(error) => return Err(error),
        };
        let resource = match RateLimitHeader::Resource.read_text(headers) {
            Ok(resource) => resource.to_owned(),
            Err(error) => return Err(error),
        };
        let info = RateLimitInfo { content, limit, used, remaining, resource };
        proof {
            rate_limit_is_that_of_the_headers(info, *headers);
        }
        Ok(info)
    }

    /// The same rate limit with another content.
    pub fn with_content<U>(self, content: U) -> (r: RateLimitInfo<U>)
        ensures
            r.content == content,
            r.limit == self.limit,
            r.used == self.used,
            r.remaining == self.remaining,
            r.resource == self.resource,
    {
        RateLimitInfo {
            content,
            limit: self.limit,
            used: self.used,
            remaining: self.remaining,
            resource: self.resource,
        }
    }
}

impl RateLimitInfo<Value> {
    /// Reads a response whose headers tell the rate limit: the JSON in its body.
    pub fn from_response(headers: &HeaderMap<HeaderValue>, body: &[u8]) -> (r: Result<
        RateLimitInfo<Value>,
        serde_json::Error,
    >)
        requires
            first_header_error(*headers) is None,
        ensures
            match r {
                Ok(info) => {
                    let told = header_contents(*headers);
                    &&& info.is_told_by(*headers)
                    &&& told.contains_key("x-ratelimit-limit"@)
                    &&& info.limit as nat == decimal_value(
                        without_plus(ascii_text(told["x-ratelimit-limit"@][0])),
                    )
                    &&& told.contains_key("x-ratelimit-used"@)
                    &&& info.used as nat == decimal_value(
                        without_plus(ascii_text(told["x-ratelimit-used"@][0])),
                    )
                    &&& told.contains_key("x-ratelimit-remaining"@)
                    &&& info.remaining as nat == decimal_value(
                        without_plus(ascii_text(told["x-ratelimit-remaining"@][0])),
                    )
                    &&& told.contains_key("x-ratelimit-resource"@)
                    &&& info.resource@ == ascii_text(told["x-ratelimit-resource"@][0])
                    &&& parsed_json(body@) == Ok::<_, serde_json::Error>(info.content)
                },
                Err(error) => parsed_json(body@) == Err::<Value, _>(error),
            },
    {
        let info = RateLimitInfo::from_headers(headers, ()).unwrap();
        match parse_json(body) {
            Ok(content) => Ok(info.with_content(content)),
            Err(error) => Err(error),
        }
    }

    /// Reads any response: the rate limit in its headers first, then the JSON in its body.
    pub fn try_from_response(headers: &HeaderMap<HeaderValue>, body: &[u8]) -> (r: Result<
        RateLimitInfo<Value>,
        ResponseError,
    >)
        ensures
            match r {
                Ok(info) => {
                    let told = header_contents(*headers);
                    &&& first_header_error(*headers) is None
                    &&& info.is_told_by(*headers)
                    &&& told.contains_key("x-ratelimit-limit"@)
                    &&& info.limit as nat == decimal_value(
                        without_plus(ascii_text(told["x-ratelimit-limit"@][0])),
                    )
                    &&& told.contains_key("x-ratelimit-used"@)
                    &&& info.used as nat == decimal_value(
                        without_plus(ascii_text(told["x-ratelimit-used"@][0])),
                    )
                    &&& told.contains_key("x-ratelimit-remaining"@)
                    &&& info.remaining as nat == decimal_value(
                        without_plus(ascii_text(told["x-ratelimit-remaining"@][0])),
                    )
                    &&& told.contains_key("x-ratelimit-resource"@)
                    &&& info.resource@ == ascii_text(told["x-ratelimit-resource"@][0])
                    &&& parsed_json(body@) == Ok::<_, serde_json::Error>(info.content)
                },
                Err(ResponseError::Headers(error)) => first_header_error(*headers) == Some(error),
                Err(ResponseError::Body(error)) => {
                    &&& first_header_error(*headers) is None
                    &&& parsed_json(body@) == Err::<Value, _>(error)
                },
            },
    {
        match RateLimitInfo::from_headers(headers, ()) {
            Err(error) => Err(ResponseError::Headers(error)),
            Ok(_) => match RateLimitInfo::from_response(headers, body) {
                Ok(info) => Ok(info),
                Err(error) => Err(ResponseError::Body(error)),
            },
        }
    }
}

/// Each number of the rate limit is the one that the first value of its header spells, and what the
/// limit is for is the first value of its header.
pub proof fn rate_limit_is_that_of_the_headers<T>(
    info: RateLimitInfo<T>,
    headers: HeaderMap<HeaderValue>,
)
    requires
        info.is_told_by(headers),
    ensures
        header_contents(headers).contains_key("x-ratelimit-limit"@),
        info.limit as nat == decimal_value(
            without_plus(ascii_text(header_contents(headers)["x-ratelimit-limit"@][0])),
        ),
        header_contents(headers).contains_key("x-ratelimit-used"@),
        info.used as nat == decimal_value(
            without_plus(ascii_text(header_contents(headers)["x-ratelimit-used"@][0])),
        ),
        header_contents(headers).contains_key("x-ratelimit-remaining"@),
        info.remaining as nat == decimal_value(
            without_plus(ascii_text(header_contents(headers)["x-ratelimit-remaining"@][0])),
        ),
        header_contents(headers).contains_key("x-ratelimit-resource"@),
        info.resource@ == ascii_text(header_contents(headers)["x-ratelimit-resource"@][0]),
{
    names_are_in_lower_case(RateLimitHeader::Limit);
    names_are_in_lower_case(RateLimitHeader::Used);
    names_are_in_lower_case(RateLimitHeader::Remaining);
    names_are_in_lower_case(RateLimitHeader::Resource);
}

/// Of the headers that are not as they should be, the first one counts: the limit comes first, then
/// what is used, what remains, and what the limit is for. Nothing is wrong only if each of the four
/// is as it should be, and only then can the rate limit be that of the headers.
pub proof fn first_bad_header_counts<T>(info: RateLimitInfo<T>, headers: HeaderMap<HeaderValue>)
    ensures
        match first_header_error(headers) {
            Some(error) => {
                &&& !info.is_told_by(headers)
                &&& error.header == RateLimitHeader::Resource ==> RateLimitHeader::Resource.text_in(
                    headers,
                ) == Err::<Seq<char>, HeaderError>(error)
                &&& error.header != RateLimitHeader::Resource ==> error.header.number_in(headers)
                    == Err::<u32, HeaderError>(error)
                &&& error.header == RateLimitHeader::Limit || RateLimitHeader::Limit.number_in(
                    headers,
                ) is Ok
                &&& error.header == RateLimitHeader::Limit || error.header == RateLimitHeader::Used
                    || RateLimitHeader::Used.number_in(headers) is Ok
                &&& error.header == RateLimitHeader::Resource
                    ==> RateLimitHeader::Remaining.number_in(headers) is Ok
            },
            None => {
                &&& RateLimitHeader::Limit.number_in(headers) is Ok
                &&& RateLimitHeader::Used.number_in(headers) is Ok
                &&& RateLimitHeader::Remaining.number_in(headers) is Ok
                &&& RateLimitHeader::Resource.text_in(headers) is Ok
            },
        },
{
}

} // verus!
