//! The headers in which a server tells its rate limit.

use http::header::ToStrError;
use http::{HeaderMap, HeaderValue};
use vstd::prelude::*;

use crate::text::{decimal_value, parse_u32, parsed_u32, without_plus};

verus! {

/// `http::HeaderMap`, the headers of a response. What it holds is `header_contents`.
#[verifier::external_type_specification]
#[verifier::external_body]
#[verifier::reject_recursive_types(T)]
pub struct ExHeaderMap<T>(http::HeaderMap<T>);

/// `http::HeaderValue`, the value of a header. What it holds is `header_bytes`.
#[verifier::external_type_specification]
#[verifier::external_body]
pub struct ExHeaderValue(http::HeaderValue);

/// `http::header::ToStrError`, the refusal to read a header as text. Nothing is claimed of it.
#[verifier::external_type_specification]
#[verifier::external_body]
pub struct ExToStrError(http::header::ToStrError);

/// The values of each header, in the order in which they came, by the name of the header in lower
/// case.
pub uninterp spec fn header_contents(headers: HeaderMap<HeaderValue>) -> Map<
    Seq<char>,
    Seq<Seq<u8>>,
>;

/// The bytes of the value of a header.
pub uninterp spec fn header_bytes(value: HeaderValue) -> Seq<u8>;

/// A letter from `A` to `Z` in lower case, and any other character as it is.
pub open spec fn ascii_lower(c: char) -> char {
    if 'A' <= c && c <= 'Z' {
        (c as u32 + 32) as char
    } else {
        c
    }
}

/// A header's name in lower case.
pub open spec fn lower_name(name: Seq<char>) -> Seq<char> {
    name.map_values(|c: char| ascii_lower(c))
}

/// Calls `http::HeaderMap::get`, which takes names in upper and lower case alike: the first value
/// of the header with this name, or `None` if there is no such header.
#[verifier::external_body]
fn first_header<'a>(headers: &'a HeaderMap<HeaderValue>, name: &str) -> (r: Option<&'a HeaderValue>)
    ensures
        match r {
            Some(value) => {
                &&& header_contents(*headers).dom().contains(lower_name(name@))
                &&& header_contents(*headers)[lower_name(name@)].len() > 0
                &&& header_bytes(*value) == header_contents(*headers)[lower_name(name@)][0]
            },
            None => !header_contents(*headers).dom().contains(lower_name(name@)),
        },
{
    headers.get(name)
}

/// A byte that is a visible ASCII character, a space or a tab.
pub open spec fn is_visible(byte: u8) -> bool {
    32 <= byte < 127 || byte == 9
}

/// Every byte is visible.
pub open spec fn all_visible(bytes: Seq<u8>) -> bool {
    forall|i: int| 0 <= i < bytes.len() ==> is_visible(#[trigger] bytes[i])
}

/// The text whose characters are the given ASCII bytes.
pub open spec fn ascii_text(bytes: Seq<u8>) -> Seq<char> {
    bytes.map_values(|byte: u8| byte as char)
}

/// `http::HeaderValue::to_str` gives the text of the value if all its bytes are visible, and
/// refuses any other value.
pub assume_specification[ HeaderValue::to_str ](value: &HeaderValue) -> (r: Result<
    &str,
    ToStrError,
>)
    ensures
        match r {
            Ok(text) => all_visible(header_bytes(*value)) && text@ == ascii_text(
                header_bytes(*value),
            ),
            Err(_) => !all_visible(header_bytes(*value)),
        },
;

/// The headers that tell about the rate limit.
#[derive(Debug, Copy, Clone, PartialEq, Eq, Structural)]
pub enum RateLimitHeader {
    Limit,
    Used,
    Remaining,
    Resource,
}

/// What can be wrong with a header.
#[derive(Debug, Copy, Clone, PartialEq, Eq, Structural)]
pub enum HeaderProblem {
    /// The response does not have it.
    Missing,
    /// Its value holds bytes that are not visible.
    NotText,
    /// Its value is not a number, or too large a one.
    NotANumber,
}

/// The first header that is not as it should be.
#[derive(Debug, Copy, Clone, PartialEq, Eq, Structural)]
pub struct HeaderError {
    pub header: RateLimitHeader,
    pub problem: HeaderProblem,
}

impl RateLimitHeader {
    /// The name of the header.
    pub open spec fn spec_name(&self) -> Seq<char> {
        match self {
            RateLimitHeader::Limit => "x-ratelimit-limit"@,
            RateLimitHeader::Used => "x-ratelimit-used"@,
            RateLimitHeader::Remaining => "x-ratelimit-remaining"@,
            RateLimitHeader::Resource => "x-ratelimit-resource"@,
        }
    }

    /// The name of the header.
    pub fn name(&self) -> (r: &'static str)
        ensures
            r@ == self.spec_name(),
            r@ == (match self {
                RateLimitHeader::Limit => "x-ratelimit-limit"@,
                RateLimitHeader::Used => "x-ratelimit-used"@,
                RateLimitHeader::Remaining => "x-ratelimit-remaining"@,
                RateLimitHeader::Resource => "x-ratelimit-resource"@,
            }),
    {
        match self {
            RateLimitHeader::Limit => "x-ratelimit-limit",
            RateLimitHeader::Used => "x-ratelimit-used",
            RateLimitHeader::Remaining => "x-ratelimit-remaining",
            RateLimitHeader::Resource => "x-ratelimit-resource",
        }
    }

    /// The text of the header: of its first value, if it has several.
    pub open spec fn text_in(&self, headers: HeaderMap<HeaderValue>) -> Result<
        Seq<char>,
        HeaderError,
    > {
        let name = lower_name(self.spec_name());
        if !header_contents(headers).dom().contains(name) {
            Err(HeaderError { header: *self, problem: HeaderProblem::Missing })
        } else if !all_visible(header_contents(headers)[name][0]) {
            Err(HeaderError { header: *self, problem: HeaderProblem::NotText })
        } else {
            Ok(ascii_text(header_contents(headers)[name][0]))
        }
    }

    /// The number in the header.
    pub open spec fn number_in(&self, headers: HeaderMap<HeaderValue>) -> Result<u32, HeaderError> {
        match self.text_in(headers) {
            Err(error) => Err(error),
            Ok(text) => match parsed_u32(text) {
                None => Err(HeaderError { header: *self, problem: HeaderProblem::NotANumber }),
                Some(number) => Ok(number),
            },
        }
    }

    /// Reads the text of the header.
    pub(crate) fn read_text<'a>(&self, headers: &'a HeaderMap<HeaderValue>) -> (r: Result<
        &'a str,
        HeaderError,
    >)
        ensures
            match r {
                Ok(text) => self.text_in(*headers) == Ok::<Seq<char>, HeaderError>(text@),
                Err(error) => self.text_in(*headers) == Err::<Seq<char>, HeaderError>(error),
            },
    {
        match first_header(headers, self.name()) {
            None => Err(HeaderError { header: *self, problem: HeaderProblem::Missing }),
            Some(value) => match value.to_str() {
                Ok(text) => Ok(text),
                Err(_) => Err(HeaderError { header: *self, problem: HeaderProblem::NotText }),
            },
        }
    }

    /// Reads the number in the header.
    pub(crate) fn read_number(&self, headers: &HeaderMap<HeaderValue>) -> (r: Result<u32, HeaderError>)
        ensures
            r == self.number_in(*headers),
    {
        match self.read_text(headers) {
            Err(error) => Err(error),
            Ok(text) => match parse_u32(text) {
                Some(number) => Ok(number),
                None => Err(HeaderError { header: *self, problem: HeaderProblem::NotANumber }),
            },
        }
    }
}

/// The names of the headers are in lower case already.
pub proof fn names_are_in_lower_case(header: RateLimitHeader)
    ensures
        lower_name(header.spec_name()) == header.spec_name(),
{
    reveal_strlit("x-ratelimit-limit");
    reveal_strlit("x-ratelimit-used");
    reveal_strlit("x-ratelimit-remaining");
    reveal_strlit("x-ratelimit-resource");
    assert(lower_name(header.spec_name()) =~= header.spec_name());
}

/// The text of a header is its first value, byte by byte. There is none if the header is missing,
/// or if one of these bytes is neither visible nor a space or a tab.
pub proof fn text_is_the_first_value(
    header: RateLimitHeader,
    headers: HeaderMap<HeaderValue>,
    name: Seq<char>,
    bytes: Seq<u8>,
)
    requires
        name == (match header {
            RateLimitHeader::Limit => "x-ratelimit-limit"@,
            RateLimitHeader::Used => "x-ratelimit-used"@,
            RateLimitHeader::Remaining => "x-ratelimit-remaining"@,
            RateLimitHeader::Resource => "x-ratelimit-resource"@,
        }),
        bytes == header_contents(headers)[name][0],
    ensures
        match header.text_in(headers) {
            Ok(text) => {
                &&& header_contents(headers).contains_key(name)
                &&& forall|i: int|
                    0 <= i < bytes.len() ==> 32 <= #[trigger] bytes[i] <= 126 || bytes[i] == 9
                &&& text.len() == bytes.len()
                &&& forall|i: int|
                    0 <= i < bytes.len() ==> #[trigger] text[i] as int == bytes[i] as int
            },
            Err(error) => {
                &&& error.header == header
                &&& error.problem == HeaderProblem::Missing <==> !header_contents(
                    headers,
                ).contains_key(name)
                &&& error.problem == HeaderProblem::NotText <==> header_contents(
                    headers,
                ).contains_key(name) && exists|i: int|
                    0 <= i < bytes.len() && !(32 <= #[trigger] bytes[i] <= 126) && bytes[i] != 9
                &&& error.problem != HeaderProblem::NotANumber
            },
        },
{
    names_are_in_lower_case(header);
    if header.text_in(headers) is Ok {
        assert forall|i: int| 0 <= i < bytes.len() implies 32 <= #[trigger] bytes[i] <= 126
            || bytes[i] == 9 by {
            assert(is_visible(bytes[i]));
        }
    } else if header_contents(headers).contains_key(name) {
        let i = choose|i: int| 0 <= i < bytes.len() && !is_visible(#[trigger] bytes[i]);
        assert(!(32 <= bytes[i] <= 126) && bytes[i] != 9);
    }
}

/// The number in a header is the one that its text spells. There is none if there is no text, or
/// if the text spells none.
pub proof fn number_is_spelled_by_the_text(
    header: RateLimitHeader,
    headers: HeaderMap<HeaderValue>,
)
    ensures
        match (header.text_in(headers), header.number_in(headers)) {
            (Ok(text), Ok(number)) => {
                &&& parsed_u32(text) == Some(number)
                &&& number as nat == decimal_value(without_plus(text))
            },
            (Ok(text), Err(error)) => {
                &&& parsed_u32(text) is None
                &&& error.header == header
                &&& error.problem == HeaderProblem::NotANumber
            },
            (Err(error), number) => number == Err::<u32, HeaderError>(error),
        },
{
}

} // verus!
