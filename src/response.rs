//! The record of an executed request and its construction from what the
//! transport received.
use vstd::prelude::*;
use crate::key_value_editor::pair_views;
use crate::request::HttpRequest;
use vstd::utf8::encode_utf8;

verus! {

/// What came back for one executed request. `url` and `method` are those of
/// the request as it was sent; `size` is the byte length of `body`.
#[derive(Debug, Clone)]
pub struct HttpResponse {
    pub url: String,
    pub method: String,
    pub status: u16,
    pub headers: Vec<(String, String)>,
    pub body: String,
    pub duration_ms: u64,
    pub size: u64,
}

/// Header values as received: `None` for a value that is not valid text,
/// which becomes empty.
pub open spec fn received_header_views(h: Seq<(String, Option<String>)>) -> Seq<
    (Seq<char>, Seq<char>),
> {
    h.map_values(
        |p: (String, Option<String>)|
            (
                p.0@,
                match p.1 {
                    Some(v) => v@,
                    None => Seq::<char>::empty(),
                },
            ),
    )
}

/// The record of `request` having received `status`, `headers` and `body`
/// after `duration_ms` milliseconds in all.
pub fn response_from_parts(
    request: &HttpRequest,
    status: u16,
    headers: Vec<(String, Option<String>)>,
    body: String,
    duration_ms: u64,
) -> (r: HttpResponse)
    ensures
        r.url@ == request.url@,
        r.method@ == request.method@,
        r.status == status,
        pair_views(r.headers@) == received_header_views(headers@),
        r.body@ == body@,
        r.duration_ms == duration_ms,
        (encode_utf8(body@).len() as usize) <= u64::MAX ==> r.size == (encode_utf8(body@).len() as usize),
{
    let mut hs: Vec<(String, String)> = Vec::new();
    let mut i: usize = 0;
    while i < headers.len()
        invariant
            i <= headers@.len(),
            pair_views(hs@) == received_header_views(headers@.take(i as int)),
        decreases headers@.len() - i,
    {
        let ghost before = hs@;
        let name = headers[i].0.clone();
        let value = match &headers[i].1 {
            Some(v) => v.clone(),
            None => String::new(),
        };
        hs.push((name, value));
        assert(pair_views(hs@) =~= pair_views(before).push(received_header_views(headers@)[i as int]));
        assert(received_header_views(headers@.take(i + 1)) =~= received_header_views(
            headers@.take(i as int),
        ).push(received_header_views(headers@)[i as int]));
        i = i + 1;
    }
    assert(headers@.take(i as int) =~= headers@);
    let n = body.as_str().len();
    let size: u64 = if n as u128 > u64::MAX as u128 { u64::MAX } else { n as u64 };
    HttpResponse {
        url: request.url.clone(),
        method: request.method.clone(),
        status,
        headers: hs,
        body,
        duration_ms,
        size,
    }
}

} // verus!
