//! What a test case declares, and the request that is made from it.

use crate::json::Json;
use crate::method::{method_named, parse_method, uppercased, Method};
use crate::text::join;
use vstd::prelude::*;

verus! {

/// One header of a request: a name and its value, sent as they stand.
#[derive(Debug)]
pub struct Header {
    pub key: String,
    pub value: String,
}

/// What a test case expects of the response.
#[derive(Debug)]
pub struct Expected {
    /// The status code that the response must carry.
    pub status: u16,
    /// The body that the response must carry, where one is declared.
    pub response: Option<Json>,
}

/// One declared request together with what is expected of its response.
#[derive(Debug)]
pub struct TestCase {
    /// A name for people to read; nothing asks that it be unique.
    pub case: String,
    /// The verb, in any case; see [`parse_method`].
    pub method: String,
    /// The headers to send, in this order; the same name may occur twice.
    pub headers: Option<Vec<Header>>,
    /// Appended to the base URL as it stands.
    pub path: String,
    pub expected: Expected,
}

/// A request that is ready to be sent.
#[derive(Debug)]
pub struct Request {
    pub method: Method,
    pub url: String,
    pub headers: Vec<Header>,
}

impl View for Header {
    type V = (Seq<char>, Seq<char>);

    open spec fn view(&self) -> (Seq<char>, Seq<char>) {
        (self.key@, self.value@)
    }
}

/// The names and values of a list of headers, in order.
pub open spec fn headers_view(headers: Seq<Header>) -> Seq<(Seq<char>, Seq<char>)> {
    Seq::new(headers.len(), |i: int| headers[i]@)
}

/// The headers that a test case declares; none where it declares no list.
pub open spec fn declared_headers(test_case: &TestCase) -> Seq<(Seq<char>, Seq<char>)> {
    match test_case.headers {
        Some(headers) => headers_view(headers@),
        None => Seq::empty(),
    }
}

/// Copies a list of headers, keeping names, values, order and repetitions.
pub fn copy_headers(headers: &Vec<Header>) -> (copy: Vec<Header>)
    ensures
        headers_view(copy@) == headers_view(headers@),
{
    let mut copy: Vec<Header> = Vec::new();
    let mut i: usize = 0;
    while i < headers.len()
        invariant
            i <= headers.len(),
            copy.len() == i,
            forall|k: int| 0 <= k < i ==> (#[trigger] copy[k])@ == headers[k]@,
        decreases headers.len() - i,
    {
        copy.push(Header { key: headers[i].key.clone(), value: headers[i].value.clone() });
        i += 1;
    }
    assert(headers_view(copy@) =~= headers_view(headers@));
    copy
}

/// Builds the request of a test case against a base URL.
///
/// The URL is the base URL followed by the path, with nothing put between
/// them and nothing taken away. The headers are those declared, unchanged.
pub fn build_request(base_url: &str, test_case: &TestCase) -> (request: Request)
    ensures
        request.method == method_named(uppercased(test_case.method@)),
        request.url@ == base_url@ + test_case.path@,
        headers_view(request.headers@) == declared_headers(test_case),
{
    let method = parse_method(test_case.method.as_str());
    let url = join(base_url, test_case.path.as_str());
    let headers = match &test_case.headers {
        Some(declared) => copy_headers(declared),
        None => Vec::new(),
    };
    assert(test_case.headers is None ==> headers_view(headers@) =~= declared_headers(test_case));
    Request { method, url, headers }
}

} // verus!
