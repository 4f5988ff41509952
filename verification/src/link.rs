//! URLs, and the page numbers in their queries.

use url::Url;
use vstd::prelude::*;

use crate::text::{parse_u32, parsed_u32, same_text};

verus! {

/// `url::Url`, a parsed URL. Nothing is claimed of it.
#[verifier::external_type_specification]
#[verifier::external_body]
pub struct ExUrl(Url);

/// `url::ParseError`, why a text is no URL. Nothing is claimed of it.
#[verifier::external_type_specification]
#[verifier::external_body]
pub struct ExParseError(url::ParseError);

/// The URL that `url::Url::parse` reads in a text, or `None` if it refuses the text.
pub uninterp spec fn parsed_url(text: Seq<char>) -> Option<Url>;

/// The names and values in the query of a URL, decoded and in order, as `url::Url::query_pairs`
/// lists them.
pub uninterp spec fn url_query_pairs(url: Url) -> Seq<(Seq<char>, Seq<char>)>;

/// `url::Url::parse` depends on nothing but the text: it accepts the same texts every time, and
/// reads the same URL in them. Which texts it accepts is not stated here.
pub assume_specification[ Url::parse ](input: &str) -> (r: Result<Url, url::ParseError>)
    ensures
        match r {
            Ok(url) => parsed_url(input@) == Some(url),
            Err(_) => parsed_url(input@) is None,
        },
;

/// `<url::Url as Clone>::clone` gives the same URL again.
pub assume_specification[ <Url as Clone>::clone ](url: &Url) -> (r: Url)
    ensures
        r == *url,
;

/// The views of pairs of strings.
pub open spec fn pair_views(pairs: Seq<(String, String)>) -> Seq<(Seq<char>, Seq<char>)> {
    pairs.map_values(|pair: (String, String)| (pair.0@, pair.1@))
}

/// Calls `url::Url::query_pairs` and collects what it yields, which depends on nothing but the
/// URL. How a query is split and decoded is not stated here.
#[verifier::external_body]
fn query_pairs(url: &Url) -> (r: Vec<(String, String)>)
    ensures
        pair_views(r@) == url_query_pairs(*url),
{
    url.query_pairs().into_owned().collect()
}

/// Why a link names no page.
#[derive(Debug, Copy, Clone, PartialEq, Eq, Structural)]
pub enum LinkError {
    /// The link is not a URL.
    NotAUrl,
    /// Its query has no `page`.
    NoPage,
    /// The first `page` of its query is not a number, or too large a one.
    NotANumber,
}

/// The value of the first pair with the given name.
pub open spec fn first_value(pairs: Seq<(Seq<char>, Seq<char>)>, name: Seq<char>) -> Option<
    Seq<char>,
>
    decreases pairs.len(),
{
    if pairs.len() == 0 {
        None
    } else if pairs[0].0 == name {
        Some(pairs[0].1)
    } else {
        first_value(pairs.drop_first(), name)
    }
}

/// The number of the page that a query asks for.
pub open spec fn page_in_pairs(pairs: Seq<(Seq<char>, Seq<char>)>) -> Result<u32, LinkError> {
    match first_value(pairs, "page"@) {
        None => Err(LinkError::NoPage),
        Some(value) => match parsed_u32(value) {
            None => Err(LinkError::NotANumber),
            Some(page) => Ok(page),
        },
    }
}

/// The number of the page that a link leads to.
pub open spec fn page_in_link(link: Seq<char>) -> Result<u32, LinkError> {
    match parsed_url(link) {
        None => Err(LinkError::NotAUrl),
        Some(url) => page_in_pairs(url_query_pairs(url)),
    }
}

/// Finds the number of the page in the pairs of a query.
pub fn page_number(pairs: &Vec<(String, String)>) -> (r: Result<u32, LinkError>)
    ensures
        r == page_in_pairs(pair_views(pairs@)),
{
    let ghost all = pair_views(pairs@);
    let mut i: usize = 0;
    assert(all.skip(0) =~= all);
    while i < pairs.len()
        invariant
            i <= pairs.len(),
            all == pair_views(pairs@),
            first_value(all, "page"@) == first_value(all.skip(i as int), "page"@),
        decreases pairs.len() - i,
    {
        assert(all.skip(i as int)[0] == (pairs@[i as int].0@, pairs@[i as int].1@));
        assert(all.skip(i as int).drop_first() =~= all.skip(i + 1));
        if same_text(pairs[i].0.as_str(), "page") {
            return match parse_u32(pairs[i].1.as_str()) {
                Some(page) => Ok(page),
                None => Err(LinkError::NotANumber),
            };
        }
        i = i + 1;
    }
    Err(LinkError::NoPage)
}

/// Finds the number of the page that a link leads to.
pub fn link_page(link: &str) -> (r: Result<u32, LinkError>)
    ensures
        r == page_in_link(link@),
{
    match Url::parse(link) {
        Ok(url) => page_number(&query_pairs(&url)),
        Err(_) => Err(LinkError::NotAUrl),
    }
}

/// Only the first `page` of a query counts: whatever follows it makes no difference.
pub proof fn first_page_counts(
    pairs: Seq<(Seq<char>, Seq<char>)>,
    rest: Seq<(Seq<char>, Seq<char>)>,
)
    requires
        first_value(pairs, "page"@) is Some,
    ensures
        page_in_pairs(pairs + rest) == page_in_pairs(pairs),
    decreases pairs.len(),
{
    if pairs[0].0 != "page"@ {
        first_page_counts(pairs.drop_first(), rest);
        assert((pairs + rest).drop_first() =~= pairs.drop_first() + rest);
    }
}

/// The first pair with the name decides: the number in its value, or that it holds none. If no
/// pair has the name, there is no page.
pub proof fn page_is_in_the_first_pair_named_so(pairs: Seq<(Seq<char>, Seq<char>)>, first: int)
    requires
        0 <= first <= pairs.len(),
        forall|i: int| 0 <= i < first ==> (#[trigger] pairs[i]).0 != "page"@,
        first < pairs.len() ==> pairs[first].0 == "page"@,
    ensures
        first == pairs.len() ==> page_in_pairs(pairs) == Err::<u32, LinkError>(LinkError::NoPage),
        first < pairs.len() ==> match parsed_u32(pairs[first].1) {
            Some(page) => page_in_pairs(pairs) == Ok::<u32, LinkError>(page),
            None => page_in_pairs(pairs) == Err::<u32, LinkError>(LinkError::NotANumber),
        },
    decreases pairs.len(),
{
    if first > 0 {
        let rest = pairs.drop_first();
        assert(pairs[0].0 != "page"@);
        assert forall|i: int| 0 <= i < first - 1 implies (#[trigger] rest[i]).0 != "page"@ by {
            assert(rest[i] == pairs[i + 1]);
        }
        page_is_in_the_first_pair_named_so(rest, first - 1);
    }
}

/// The page of a link is the one in the query of the URL that the link is. A link that is no URL
/// has none.
pub proof fn page_of_a_link_is_in_its_query(link: Seq<char>, first: int)
    requires
        parsed_url(link) matches Some(url) ==> {
            &&& 0 <= first <= url_query_pairs(url).len()
            &&& forall|i: int| 0 <= i < first ==> (#[trigger] url_query_pairs(url)[i]).0 != "page"@
            &&& first < url_query_pairs(url).len() ==> url_query_pairs(url)[first].0 == "page"@
        },
    ensures
        match parsed_url(link) {
            None => page_in_link(link) == Err::<u32, LinkError>(LinkError::NotAUrl),
            Some(url) => if first == url_query_pairs(url).len() {
                page_in_link(link) == Err::<u32, LinkError>(LinkError::NoPage)
            } else {
                match parsed_u32(url_query_pairs(url)[first].1) {
                    None => page_in_link(link) == Err::<u32, LinkError>(LinkError::NotANumber),
                    Some(page) => page_in_link(link) == Ok::<u32, LinkError>(page),
                }
            },
        },
{
    if let Some(url) = parsed_url(link) {
        page_is_in_the_first_pair_named_so(url_query_pairs(url), first);
    }
}

/// The views of pairs are those of each of them, in order.
pub proof fn pair_views_are_in_order(pairs: Seq<(String, String)>)
    ensures
        pair_views(pairs).len() == pairs.len(),
        forall|i: int|
            0 <= i < pairs.len() ==> (#[trigger] pair_views(pairs)[i]).0 == pairs[i].0@
                && pair_views(pairs)[i].1 == pairs[i].1@,
{
}

} // verus!
