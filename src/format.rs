//! Rendering of a response record as readable text.
use vstd::prelude::*;
use crate::key_value_editor::pair_views;
use crate::response::HttpResponse;
use crate::text::{
    append_chars, chars_of, contains_exec, contains_seq, eq_ignore_ascii_case,
    eq_ignore_ascii_case_exec, string_of,
};

verus! {

/// The value of the first header whose name equals `name` without regard to
/// ASCII case.
pub open spec fn header_named(h: Seq<(Seq<char>, Seq<char>)>, name: Seq<char>) -> Option<Seq<char>>
    decreases h.len(),
{
    if h.len() == 0 {
        None
    } else if eq_ignore_ascii_case(h[0].0, name) {
        Some(h[0].1)
    } else {
        header_named(h.drop_first(), name)
    }
}

/// The content type that headers declare, or `unknown`.
pub open spec fn content_type_of(h: Seq<(Seq<char>, Seq<char>)>) -> Seq<char> {
    match header_named(h, "content-type"@) {
        Some(v) => v,
        None => "unknown"@,
    }
}

/// A content type under which the body is read as JSON.
pub open spec fn is_json_type(content_type: Seq<char>) -> bool {
    contains_seq(content_type, "application/json"@)
}

/// What parsing `s` as JSON and printing it again with indentation gives;
/// none where `s` is not JSON.
pub uninterp spec fn json_pretty_of(s: Seq<char>) -> Option<Seq<char>>;

/// The body as shown, where `pretty` is its re-indented JSON form if it has
/// one: that form under a JSON content type, else the body unchanged.
pub open spec fn body_text_given(content_type: Seq<char>, body: Seq<char>, pretty: Option<
    Seq<char>,
>) -> Seq<char> {
    if is_json_type(content_type) {
        match pretty {
            Some(p) => p,
            None => body,
        }
    } else {
        body
    }
}

/// The body as shown under `content_type`.
pub open spec fn body_text(content_type: Seq<char>, body: Seq<char>) -> Seq<char> {
    body_text_given(content_type, body, json_pretty_of(body))
}

/// One line `  name: value` for each header, in order.
pub open spec fn headers_block(h: Seq<(Seq<char>, Seq<char>)>) -> Seq<char>
    decreases h.len(),
{
    if h.len() == 0 {
        seq![]
    } else {
        headers_block(h.drop_last()) + "  "@ + h.last().0 + ": "@ + h.last().1 + "\n"@
    }
}

/// The text of a response: its headers, its body, then the URL and method
/// that produced it.
pub open spec fn rendered(
    h: Seq<(Seq<char>, Seq<char>)>,
    body: Seq<char>,
    url: Seq<char>,
    method: Seq<char>,
) -> Seq<char> {
    "Headers:\n"@ + headers_block(h) + "\nBody: "@ + body + "\n\n--------------------\nURL: "@ + url
        + "\nMethod: "@ + method
}

/// The text of `r`, where `pretty` is the re-indented JSON form of its body.
pub open spec fn response_text_given(r: HttpResponse, pretty: Option<Seq<char>>) -> Seq<char> {
    let h = pair_views(r.headers@);
    rendered(h, body_text_given(content_type_of(h), r.body@, pretty), r.url@, r.method@)
}

/// The text of `r`.
pub open spec fn response_text(r: HttpResponse) -> Seq<char> {
    response_text_given(r, json_pretty_of(r.body@))
}

/// Under a JSON content type, a body that does not parse as JSON is shown as
/// it came.
pub proof fn lemma_formatter_fallback(content_type: Seq<char>, body: Seq<char>)
    requires
        is_json_type(content_type),
        json_pretty_of(body) is None,
    ensures
        body_text(content_type, body) == body,
{
}

/// Relies on `serde_json::from_str` into a `serde_json::Value` and
/// `serde_json::to_string_pretty` of that value: the result depends on `s`
/// alone, and is none where either call fails.
#[verifier::external_body]
fn pretty_json(s: &str) -> (r: Option<String>)
    ensures
        match r {
            Some(p) => json_pretty_of(s@) == Some(p@),
            None => json_pretty_of(s@) is None,
        },
{
    match serde_json::from_str::<serde_json::Value>(s) {
        Ok(v) => serde_json::to_string_pretty(&v).ok(),
        Err(_) => None,
    }
}

/// The content type that `headers` declare, or `unknown`.
pub fn content_type_in(headers: &Vec<(String, String)>) -> (r: String)
    ensures
        r@ == content_type_of(pair_views(headers@)),
{
    let name = chars_of("content-type");
    let ghost h = pair_views(headers@);
    let mut i: usize = 0;
    assert(h.skip(0) =~= h);
    while i < headers.len()
        invariant
            i <= headers@.len(),
            h == pair_views(headers@),
            name@ == "content-type"@,
            header_named(h, name@) == header_named(h.skip(i as int), name@),
        decreases headers@.len() - i,
    {
        let n = chars_of(headers[i].0.as_str());
        assert(h.skip(i as int)[0] == h[i as int]);
        if eq_ignore_ascii_case_exec(&n, &name) {
            return headers[i].1.clone();
        }
        assert(h.skip(i as int).drop_first() =~= h.skip(i + 1));
        i = i + 1;
    }
    String::from_str("unknown")
}

/// The body as shown under `content_type`, where `pretty` is its re-indented
/// JSON form if it has one.
pub fn body_text_with(content_type: &str, body: &str, pretty: Option<String>) -> (r: String)
    ensures
        r@ == body_text_given(content_type@, body@, opt_seq(pretty)),
{
    let ct = chars_of(content_type);
    let json = chars_of("application/json");
    if contains_exec(&ct, &json) {
        match pretty {
            Some(p) => p,
            None => String::from_str(body),
        }
    } else {
        String::from_str(body)
    }
}

/// The view of an optional text.
pub open spec fn opt_seq(o: Option<String>) -> Option<Seq<char>> {
    match o {
        Some(s) => Some(s@),
        None => None,
    }
}

/// The text of `r`, where `pretty` is the re-indented JSON form of its body.
pub fn format_response_given(r: &HttpResponse, pretty: Option<String>) -> (t: String)
    ensures
        t@ == response_text_given(*r, opt_seq(pretty)),
{
    let ghost h = pair_views(r.headers@);
    let ct = content_type_in(&r.headers);
    let body = body_text_with(ct.as_str(), r.body.as_str(), pretty);
    let mut out = chars_of("Headers:\n");
    let mut i: usize = 0;
    while i < r.headers.len()
        invariant
            i <= r.headers@.len(),
            h == pair_views(r.headers@),
            out@ == "Headers:\n"@ + headers_block(h.take(i as int)),
        decreases r.headers@.len() - i,
    {
        append_chars(&mut out, &chars_of("  "));
        append_chars(&mut out, &chars_of(r.headers[i].0.as_str()));
        append_chars(&mut out, &chars_of(": "));
        append_chars(&mut out, &chars_of(r.headers[i].1.as_str()));
        append_chars(&mut out, &chars_of("\n"));
        assert(h.take(i + 1).drop_last() =~= h.take(i as int));
        assert(out@ =~= "Headers:\n"@ + headers_block(h.take(i + 1)));
        i = i + 1;
    }
    assert(h.take(i as int) =~= h);
    append_chars(&mut out, &chars_of("\nBody: "));
    append_chars(&mut out, &chars_of(body.as_str()));
    append_chars(&mut out, &chars_of("\n\n--------------------\nURL: "));
    append_chars(&mut out, &chars_of(r.url.as_str()));
    append_chars(&mut out, &chars_of("\nMethod: "));
    append_chars(&mut out, &chars_of(r.method.as_str()));
    assert(out@ =~= response_text_given(*r, opt_seq(pretty)));
    string_of(&out)
}

/// The text of `r`: its headers, its body (re-indented where it is JSON under
/// a JSON content type, else unchanged), then its URL and method.
pub fn format_response(r: &HttpResponse) -> (t: String)
    ensures
        t@ == response_text(*r),
{
    let ct = content_type_in(&r.headers);
    let json = chars_of("application/json");
    let pretty = if contains_exec(&chars_of(ct.as_str()), &json) {
        pretty_json(r.body.as_str())
    } else {
        None
    };
    let t = format_response_given(r, pretty);
    assert(response_text_given(*r, opt_seq(pretty)) == response_text(*r));
    t
}

} // verus!
