//! The request as the core sees it: what came in, and what goes on to the
//! backend.

use vstd::prelude::*;

verus! {

/// A request on its way to a backend.
#[derive(Debug, Clone, PartialEq, Eq)]
pub struct Request {
    /// The method, as it came in.
    pub method: String,
    /// The path, followed by a question mark and the query if the request
    /// came with a query.
    pub uri: String,
    /// The headers that go on to the backend, in the order in which they
    /// came in.
    pub headers: Vec<(String, Vec<u8>)>,
    /// The body, as it came in.
    pub body: Vec<u8>,
}

/// Whether a header name is `host` in any mix of upper and lower case: the
/// one header that routes by host and is not passed on.
pub open spec fn routes_by_host(name: Seq<char>) -> bool {
    &&& name.len() == 4
    &&& (name[0] == 'h' || name[0] == 'H')
    &&& (name[1] == 'o' || name[1] == 'O')
    &&& (name[2] == 's' || name[2] == 'S')
    &&& (name[3] == 't' || name[3] == 'T')
}

/// The headers over plain sequences.
pub open spec fn header_views(headers: Seq<(String, Vec<u8>)>) -> Seq<(Seq<char>, Seq<u8>)> {
    headers.map_values(|header: (String, Vec<u8>)| (header.0@, header.1@))
}

/// The headers that go on to the backend: all but those that route by host,
/// in their order.
pub open spec fn forwarded(headers: Seq<(Seq<char>, Seq<u8>)>) -> Seq<(Seq<char>, Seq<u8>)>
    decreases headers.len(),
{
    if headers.len() == 0 {
        headers
    } else if routes_by_host(headers.last().0) {
        forwarded(headers.drop_last())
    } else {
        forwarded(headers.drop_last()).push(headers.last())
    }
}

/// The path and the query as one request target. A request without a query
/// has its path for a target; a query, be it empty, follows the path after a
/// question mark.
pub open spec fn target_of(path: Seq<char>, query: Option<Seq<char>>) -> Seq<char> {
    match query {
        Some(query) => path + seq!['?'] + query,
        None => path,
    }
}

/// A query over its characters.
pub open spec fn query_view(query: Option<&str>) -> Option<Seq<char>> {
    match query {
        Some(query) => Some(query@),
        None => None,
    }
}

/// Whether a header name is `host` in any mix of upper and lower case.
pub fn is_host_header(name: &str) -> (host: bool)
    ensures
        host == routes_by_host(name@),
{
    if name.unicode_len() != 4 {
        return false;
    }
    let c0 = name.get_char(0);
    let c1 = name.get_char(1);
    let c2 = name.get_char(2);
    let c3 = name.get_char(3);
    (c0 == 'h' || c0 == 'H') && (c1 == 'o' || c1 == 'O') && (c2 == 's' || c2 == 'S') && (c3 == 't'
        || c3 == 'T')
}

/// The request that goes on to a backend: the method, the path, the query
/// and the body as they came in, and the headers without those that route by
/// host. `query` is `None` for a request that came without a query.
pub fn http_request(
    method: String,
    path: &str,
    query: Option<&str>,
    headers: &Vec<(String, Vec<u8>)>,
    body: Vec<u8>,
) -> (request: Request)
    ensures
        request.method == method,
        request.uri@ == target_of(path@, query_view(query)),
        header_views(request.headers@) == forwarded(header_views(headers@)),
        request.body == body,
{
    let mut uri = String::from_str(path);
    match query {
        Some(query) => {
            uri.append("?");
            uri.append(query);
            proof {
                reveal_strlit("?");
                assert("?"@ =~= seq!['?']);
            }
        },
        None => {},
    }
    let ghost all = header_views(headers@);
    let mut kept: Vec<(String, Vec<u8>)> = Vec::new();
    let mut i: usize = 0;
    proof {
        assert(all.take(0).len() == 0);
        assert(header_views(kept@) =~= forwarded(all.take(0)));
    }
    while i < headers.len()
        invariant
            i <= headers@.len(),
            all == header_views(headers@),
            header_views(kept@) == forwarded(all.take(i as int)),
        decreases headers@.len() - i,
    {
        let ghost before = kept@;
        proof {
            let next = all.take(i + 1);
            assert(next.drop_last() =~= all.take(i as int));
            assert(next.last() == (headers@[i as int].0@, headers@[i as int].1@));
        }
        if !is_host_header(headers[i].0.as_str()) {
            let name = headers[i].0.clone();
            let value = headers[i].1.clone();
            kept.push((name, value));
            proof {
                assert(header_views(kept@) =~= header_views(before).push(
                    (headers@[i as int].0@, headers@[i as int].1@),
                ));
            }
        }
        i += 1;
    }
    proof {
        assert(all.take(i as int) =~= all);
    }
    Request { method, uri, headers: kept, body }
}

} // verus!
