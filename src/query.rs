use vstd::prelude::*;
use vstd::string::StrSliceExecFns;
use vstd::string::StringExecFns;

use crate::model::ClientError;

verus! {

/// The character of a decimal digit `d < 10`.
pub open spec fn digit_char(d: nat) -> char {
    "0123456789"@[d as int]
}

/// Decimal digits of a natural number, most significant first, without leading zeros.
pub open spec fn decimal_digits(n: nat) -> Seq<char>
    decreases n,
{
    if n < 10 {
        seq![digit_char(n)]
    } else {
        decimal_digits(n / 10).push(digit_char(n % 10))
    }
}

/// Decimal text of an integer, with a leading `-` when it is negative.
pub open spec fn decimal_text(n: int) -> Seq<char> {
    if n < 0 {
        seq!['-'] + decimal_digits((-n) as nat)
    } else {
        decimal_digits(n as nat)
    }
}

/// Decimal digits of `n`.
fn digits_of(n: u64) -> (r: String)
    ensures
        r@ == decimal_digits(n as nat),
    decreases n,
{
    let table = "0123456789";
    proof {
        reveal_strlit("0123456789");
    }
    let d: usize = (n % 10) as usize;
    let last = table.substring_char(d, d + 1);
    if n < 10 {
        let r = String::from_str(last);
        assert(r@ =~= seq![digit_char(n as nat)]);
        r
    } else {
        let mut r = digits_of(n / 10);
        r.append(last);
        assert(r@ =~= decimal_digits((n / 10) as nat).push(digit_char((n % 10) as nat)));
        r
    }
}

/// Decimal text of `n`, as it appears in a query string.
pub fn decimal(n: i64) -> (r: String)
    ensures
        r@ == decimal_text(n as int),
{
    if n < 0 {
        let m: u64 = (0i128 - n as i128) as u64;
        let digits = digits_of(m);
        let mut r = String::from_str("-");
        proof {
            reveal_strlit("-");
        }
        r.append(digits.as_str());
        assert(r@ =~= seq!['-'] + decimal_digits((-n) as nat));
        r
    } else {
        digits_of(n as u64)
    }
}

/// Paging of a listing; an absent field is left to the server.
#[derive(Clone, Copy, Debug, PartialEq, Eq, Structural)]
pub struct ListMessagesParams {
    pub start: Option<i64>,
    pub limit: Option<i64>,
}

/// What a search matches on.
#[derive(Clone, Copy, Debug, PartialEq, Eq, Structural)]
pub enum SearchKind {
    /// The sender's address.
    From,
    /// A recipient's address.
    To,
    /// A substring of the subject or the body.
    Containing,
}

/// A search: its kind, the text the server looks for, and optional paging.
#[derive(Clone, Debug, PartialEq, Eq)]
pub struct SearchParams {
    pub kind: SearchKind,
    pub query: String,
    pub start: Option<i64>,
    pub limit: Option<i64>,
}

/// A request to the capture service: the full URL and the query parameters, in order.
#[derive(Clone, Debug, PartialEq, Eq)]
pub struct ApiRequest {
    pub url: String,
    pub query: Vec<(String, String)>,
}

impl ApiRequest {
    /// The query parameters as pairs of texts.
    pub open spec fn query_view(&self) -> Seq<(Seq<char>, Seq<char>)> {
        self.query@.map_values(|p: (String, String)| (p.0@, p.1@))
    }
}

impl SearchKind {
    /// The token that names the kind in a query.
    pub open spec fn token_spec(&self) -> Seq<char> {
        match self {
            SearchKind::From => "from"@,
            SearchKind::To => "to"@,
            SearchKind::Containing => "containing"@,
        }
    }

    /// The token that names the kind in a query: `from`, `to` or `containing`.
    pub fn token(&self) -> (r: &'static str)
        ensures
            r@ == self.token_spec(),
    {
        match self {
            SearchKind::From => "from",
            SearchKind::To => "to",
            SearchKind::Containing => "containing",
        }
    }
}

/// The parameter `name=n` when `value` is `Some(n)`, nothing when it is absent.
pub open spec fn optional_param(name: Seq<char>, value: Option<i64>) -> Seq<(Seq<char>, Seq<char>)> {
    match value {
        Some(n) => seq![(name, decimal_text(n as int))],
        None => seq![],
    }
}

/// The query of a listing.
pub open spec fn list_query(p: ListMessagesParams) -> Seq<(Seq<char>, Seq<char>)> {
    optional_param("start"@, p.start) + optional_param("limit"@, p.limit)
}

/// The query of a search.
pub open spec fn search_query(p: SearchParams) -> Seq<(Seq<char>, Seq<char>)> {
    seq![("kind"@, p.kind.token_spec()), ("query"@, p.query@)] + optional_param("start"@, p.start)
        + optional_param("limit"@, p.limit)
}

/// Appends `name=n` when `value` is `Some(n)`.
fn push_optional(query: &mut Vec<(String, String)>, name: &str, value: Option<i64>)
    ensures
        final(query)@.map_values(|p: (String, String)| (p.0@, p.1@)) == old(query)@.map_values(
            |p: (String, String)| (p.0@, p.1@),
        ) + optional_param(name@, value),
{
    match value {
        Some(n) => {
            query.push((String::from_str(name), decimal(n)));
        },
        None => {},
    }
    assert(final(query)@.map_values(|p: (String, String)| (p.0@, p.1@)) =~= old(query)@.map_values(
        |p: (String, String)| (p.0@, p.1@),
    ) + optional_param(name@, value));
}

/// The URL of an endpoint under the base URL.
fn endpoint(base_url: &str, path: &str) -> (r: String)
    ensures
        r@ == base_url@ + path@,
{
    let mut url = String::from_str(base_url);
    url.append(path);
    url
}

/// Path of the listing endpoint under the base URL.
pub open spec fn messages_path() -> Seq<char> {
    "/api/v2/messages"@
}

/// Path of the search endpoint under the base URL.
pub open spec fn search_path() -> Seq<char> {
    "/api/v2/search"@
}

/// The request that lists messages: `start` and `limit` appear only when set.
pub fn list_messages_request(base_url: &str, params: ListMessagesParams) -> (r: ApiRequest)
    ensures
        r.url@ == base_url@ + messages_path(),
        r.query_view() == list_query(params),
{
    let url = endpoint(base_url, "/api/v2/messages");
    let mut query: Vec<(String, String)> = Vec::new();
    push_optional(&mut query, "start", params.start);
    push_optional(&mut query, "limit", params.limit);
    assert(query@.map_values(|p: (String, String)| (p.0@, p.1@)) =~= list_query(params));
    ApiRequest { url, query }
}

/// The request that searches: `kind` and `query` always, `start` and `limit` only when set.
pub fn search_request(base_url: &str, params: &SearchParams) -> (r: ApiRequest)
    ensures
        r.url@ == base_url@ + search_path(),
        r.query_view() == search_query(*params),
{
    let url = endpoint(base_url, "/api/v2/search");
    let mut query: Vec<(String, String)> = Vec::new();
    query.push((String::from_str("kind"), String::from_str(params.kind.token())));
    query.push((String::from_str("query"), params.query.clone()));
    push_optional(&mut query, "start", params.start);
    push_optional(&mut query, "limit", params.limit);
    assert(query@.map_values(|p: (String, String)| (p.0@, p.1@)) =~= search_query(*params));
    ApiRequest { url, query }
}

/// Whether a status code is a success (the 2xx range).
pub open spec fn is_success(code: u16) -> bool {
    200 <= code < 300
}

/// Accepts a success status and turns any other into `HttpStatus` with its code.
pub fn check_status(code: u16) -> (r: Result<(), ClientError>)
    ensures
        is_success(code) ==> r == Ok::<(), ClientError>(()),
        !is_success(code) ==> r == Err::<(), ClientError>(ClientError::HttpStatus(code)),
{
    if 200 <= code && code < 300 {
        Ok(())
    } else {
        Err(ClientError::HttpStatus(code))
    }
}

} // verus!
