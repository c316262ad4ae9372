//! One request slot: the fields a user edits, the composition of the request
//! they describe, and the lifecycle of its execution.
use vstd::prelude::*;
use vstd::string::StringExecFns;
use crate::auth::{
    Auth, AuthInput, AuthType, auth_after_input, auth_after_inputs, auth_for_type, auth_header,
    auth_kind, fields_typed_in, is_fresh_auth, lemma_auth_fields_after_switch,
};
use crate::environment::{Environment, apply_environment, substitute, substitute_headers};
use crate::format::{content_type_in, content_type_of, format_response, response_text};
use crate::key_value_editor::{
    self, KeyValueEditor, KeyValueEntry, editor_updated, is_fresh_editor, non_empty_pairs, non_empty_pairs_of,
    pair_views,
};
use crate::query::{lemma_query_round_trip, parse_query, query_string, query_string_of};
use crate::request::{HttpRequest, opt_view};
use crate::response::HttpResponse;
use crate::text::{append_chars, chars_of, contains_char_exec, string_of};

verus! {

/// The media type of a request body.
#[derive(Debug, Clone, Copy, PartialEq, Eq, Structural)]
pub enum ContentType {
    Json,
    Text,
    Html,
    Xml,
}

/// The `Content-Type` header value for each body type.
pub open spec fn mime_of(c: ContentType) -> Seq<char> {
    match c {
        ContentType::Json => "application/json"@,
        ContentType::Text => "text/plain"@,
        ContentType::Html => "text/html"@,
        ContentType::Xml => "application/xml"@,
    }
}

/// The caption shown for each body type.
pub open spec fn content_type_label(c: ContentType) -> Seq<char> {
    match c {
        ContentType::Json => "JSON"@,
        ContentType::Text => "Text"@,
        ContentType::Html => "HTML"@,
        ContentType::Xml => "XML"@,
    }
}

impl ContentType {
    /// The `Content-Type` header value for this body type.
    pub fn mime(&self) -> (r: String)
        ensures
            r@ == mime_of(*self),
    {
        match self {
            ContentType::Json => String::from_str("application/json"),
            ContentType::Text => String::from_str("text/plain"),
            ContentType::Html => String::from_str("text/html"),
            ContentType::Xml => String::from_str("application/xml"),
        }
    }

    /// The caption shown for this body type.
    pub fn label(&self) -> (r: String)
        ensures
            r@ == content_type_label(*self),
    {
        match self {
            ContentType::Json => String::from_str("JSON"),
            ContentType::Text => String::from_str("Text"),
            ContentType::Html => String::from_str("HTML"),
            ContentType::Xml => String::from_str("XML"),
        }
    }
}

/// The editing tabs of a request slot.
#[derive(Debug, Clone, Copy, PartialEq, Eq, Structural)]
pub enum TabId {
    Body,
    Headers,
    Params,
    Authorization,
}

impl Default for TabId {
    fn default() -> (r: TabId)
        ensures
            r == TabId::Body,
    {
        TabId::Body
    }
}

/// Where the execution of a slot's request stands.
#[derive(Debug, Clone)]
pub enum RequestStatus {
    Idle,
    Loading,
    Success(String),
    Error(String),
}

/// An edit or an event of a request slot.
#[derive(Debug)]
pub enum Message {
    UrlInputChanged(String),
    MethodSelected(String),
    TabSelected(TabId),
    AuthTypeSelected(AuthType),
    AuthInputChanged(AuthInput),
    HeadersEditor(key_value_editor::Message),
    ParamsEditor(key_value_editor::Message),
    BodyInputChanged(String),
    RequestContentTypeSelected(ContentType),
    SendRequest,
    SetLoading,
    ResponseReceived(u64, Result<HttpResponse, String>),
    CopyResponse,
}

/// One request slot. `generation` counts the requests started from it, so
/// that a result is applied only to the request it belongs to.
#[derive(Debug, Clone)]
pub struct HttpRequestView {
    pub url_input: String,
    pub method: String,
    pub body_input: String,
    pub auth: Auth,
    pub headers_editor: KeyValueEditor,
    pub params_editor: KeyValueEditor,
    pub active_tab: TabId,
    pub request_status: RequestStatus,
    pub status_code: Option<u16>,
    pub content_type: Option<String>,
    pub response_duration: Option<u64>,
    pub response_size: Option<u64>,
    pub request_content_type: ContentType,
    pub generation: u64,
}

/// `url` with the query `q` appended: unchanged for an empty query, after `&`
/// where the URL already has a `?`, else after `?`.
pub open spec fn url_with_query(url: Seq<char>, q: Seq<char>) -> Seq<char> {
    if q.len() == 0 {
        url
    } else if url.contains('?') {
        url + seq!['&'] + q
    } else {
        url + seq!['?'] + q
    }
}

/// The headers of a composed request: the user's headers with a key, then the
/// derived `Authorization` header if any, then `Content-Type` where there is a
/// body. A user-declared `Authorization` header is kept beside the derived
/// one, which comes later, so that where the transport keeps the last of
/// equal names the derived header wins.
pub open spec fn headers_for(
    entries: Seq<KeyValueEntry>,
    auth: Auth,
    body: Seq<char>,
    content_type: ContentType,
) -> Seq<(Seq<char>, Seq<char>)> {
    let base = non_empty_pairs(entries);
    let with_auth = match auth_header(auth) {
        Some(h) => base.push(h),
        None => base,
    };
    if body.len() > 0 {
        with_auth.push(("Content-Type"@, mime_of(content_type)))
    } else {
        with_auth
    }
}

/// The URL of the request that `v` describes.
pub open spec fn composed_url(v: HttpRequestView) -> Seq<char> {
    url_with_query(v.url_input@, query_string(non_empty_pairs(v.params_editor.entries@)))
}

/// The headers of the request that `v` describes.
pub open spec fn composed_headers(v: HttpRequestView) -> Seq<(Seq<char>, Seq<char>)> {
    headers_for(v.headers_editor.entries@, v.auth, v.body_input@, v.request_content_type)
}

/// The body of the request that `v` describes: none when the text is empty.
pub open spec fn composed_body(v: HttpRequestView) -> Option<Seq<char>> {
    if v.body_input@.len() == 0 {
        None
    } else {
        Some(v.body_input@)
    }
}

/// `r` is the request that `v` describes, with the variables of `env` applied.
pub open spec fn is_composed(v: HttpRequestView, env: Option<Environment>, r: HttpRequest) -> bool {
    &&& r.method@ == v.method@
    &&& match env {
        None => {
            &&& r.url@ == composed_url(v)
            &&& pair_views(r.headers@) == composed_headers(v)
            &&& opt_view(r.body) == composed_body(v)
        },
        Some(e) => {
            let vars = pair_views(e.variables@);
            &&& r.url@ == substitute(composed_url(v), vars)
            &&& pair_views(r.headers@) == substitute_headers(composed_headers(v), vars)
            &&& opt_view(r.body) == match composed_body(v) {
                Some(b) => Some(substitute(b, vars)),
                None => None,
            }
        },
    }
}

/// `v` is a new slot on `url`: method `GET`, no body, no credential, both
/// editors new, the body tab shown, idle with no metadata, JSON as body
/// type, generation 0.
pub open spec fn is_fresh_view(v: HttpRequestView, url: Seq<char>) -> bool {
    &&& v.url_input@ == url
    &&& v.method@ == "GET"@
    &&& v.body_input@.len() == 0
    &&& v.auth is NoAuth
    &&& is_fresh_editor(v.headers_editor, "Add Header"@)
    &&& is_fresh_editor(v.params_editor, "Add Param"@)
    &&& v.active_tab == TabId::Body
    &&& v.request_status is Idle
    &&& v.status_code is None
    &&& v.content_type is None
    &&& v.response_duration is None
    &&& v.response_size is None
    &&& v.request_content_type == ContentType::Json
    &&& v.generation == 0
}

/// The generation after `g`, wrapping around after the largest.
pub open spec fn next_generation(g: u64) -> u64 {
    if g == u64::MAX {
        0
    } else {
        (g + 1) as u64
    }
}

/// `v` once a new request has started: loading, no metadata of an earlier
/// response, and a new generation.
pub open spec fn loading_state(v: HttpRequestView) -> HttpRequestView {
    HttpRequestView {
        request_status: RequestStatus::Loading,
        status_code: None,
        content_type: None,
        response_duration: None,
        response_size: None,
        generation: next_generation(v.generation),
        ..v
    }
}

/// `new` is `old` after the result of the request with generation `ticket`
/// arrived: unchanged unless `ticket` is the current generation; else the
/// rendered response and its metadata, or the error message and no metadata.
pub open spec fn response_applied(
    old: HttpRequestView,
    ticket: u64,
    result: Result<HttpResponse, String>,
    new: HttpRequestView,
) -> bool {
    if ticket != old.generation {
        new == old
    } else {
        match result {
            Ok(r) => {
                &&& new == HttpRequestView {
                    status_code: Some(r.status),
                    response_duration: Some(r.duration_ms),
                    response_size: Some(r.size),
                    content_type: new.content_type,
                    request_status: new.request_status,
                    ..old
                }
                &&& new.content_type matches Some(c) && c@ == content_type_of(pair_views(r.headers@))
                &&& new.request_status matches RequestStatus::Success(t) && t@ == response_text(r)
            },
            Err(e) => {
                &&& new == HttpRequestView {
                    status_code: None,
                    response_duration: None,
                    response_size: None,
                    content_type: None,
                    request_status: new.request_status,
                    ..old
                }
                &&& new.request_status matches RequestStatus::Error(m) && m@ == "Error: "@ + e@
            },
        }
    }
}

/// `new` is `old` after `message`.
pub open spec fn view_updated(old: HttpRequestView, message: Message, new: HttpRequestView) -> bool {
    match message {
        Message::UrlInputChanged(u) => new == HttpRequestView { url_input: u, ..old },
        Message::MethodSelected(m) => new == HttpRequestView { method: m, ..old },
        Message::TabSelected(t) => new == HttpRequestView { active_tab: t, ..old },
        Message::AuthTypeSelected(t) => {
            &&& new == HttpRequestView { auth: new.auth, ..old }
            &&& is_fresh_auth(new.auth, t)
        },
        Message::AuthInputChanged(i) => new == HttpRequestView {
            auth: auth_after_input(old.auth, i),
            ..old
        },
        Message::HeadersEditor(m) => {
            &&& new == HttpRequestView { headers_editor: new.headers_editor, ..old }
            &&& editor_updated(old.headers_editor, m, new.headers_editor)
        },
        Message::ParamsEditor(m) => {
            &&& new == HttpRequestView { params_editor: new.params_editor, ..old }
            &&& editor_updated(old.params_editor, m, new.params_editor)
        },
        Message::BodyInputChanged(b) => new == HttpRequestView { body_input: b, ..old },
        Message::RequestContentTypeSelected(c) => new == HttpRequestView {
            request_content_type: c,
            ..old
        },
        Message::SendRequest => new == old,
        Message::SetLoading => new == loading_state(old),
        Message::ResponseReceived(ticket, result) => response_applied(old, ticket, result, new),
        Message::CopyResponse => new == old,
    }
}

impl HttpRequestView {
    /// Both editors are well formed.
    pub open spec fn wf(&self) -> bool {
        self.headers_editor.wf() && self.params_editor.wf()
    }

    /// The request that the fields describe: the query appended to the URL,
    /// the user's headers with a key, the derived `Authorization` header, and
    /// `Content-Type` with the body where the body is not empty.
    pub fn build_request(&self) -> (r: HttpRequest)
        ensures
            is_composed(*self, None, r),
    {
        let q = query_string_of(&self.params_editor.entries);
        let mut u = chars_of(self.url_input.as_str());
        let url = if q.as_str().is_empty() {
            self.url_input.clone()
        } else {
            if contains_char_exec(&u, '?') {
                u.push('&');
            } else {
                u.push('?');
            }
            append_chars(&mut u, &chars_of(q.as_str()));
            string_of(&u)
        };
        assert(url@ == composed_url(*self));
        let mut headers = non_empty_pairs_of(&self.headers_editor.entries);
        let ghost base = pair_views(headers@);
        match self.auth.header() {
            Some(h) => {
                headers.push(h);
                assert(pair_views(headers@) =~= base.push(auth_header(self.auth)->0));
            },
            None => {},
        }
        let ghost with_auth = pair_views(headers@);
        let body = if self.body_input.as_str().is_empty() {
            None
        } else {
            let ct = (String::from_str("Content-Type"), self.request_content_type.mime());
            headers.push(ct);
            assert(pair_views(headers@) =~= with_auth.push(
                ("Content-Type"@, mime_of(self.request_content_type)),
            ));
            Some(self.body_input.clone())
        };
        assert(pair_views(headers@) == composed_headers(*self));
        HttpRequest { method: self.method.clone(), url, headers, body }
    }

    /// The request that the fields describe, with the variables of `env`
    /// applied to its URL, header values and body.
    pub fn compose(&self, env: Option<&Environment>) -> (r: HttpRequest)
        ensures
            is_composed(
                *self,
                match env {
                    Some(e) => Some(*e),
                    None => None,
                },
                r,
            ),
    {
        let r = self.build_request();
        match env {
            Some(e) => apply_environment(r, e),
            None => r,
        }
    }

    /// The kind of the active credential.
    pub fn current_auth_type(&self) -> (r: AuthType)
        ensures
            r == auth_kind(self.auth),
    {
        self.auth.kind()
    }

    /// Starts a new request: the slot is loading, the metadata of any earlier
    /// response is cleared, and the new generation is returned.
    pub fn set_loading(&mut self) -> (ticket: u64)
        ensures
            *final(self) == loading_state(*old(self)),
            ticket == final(self).generation,
            final(self).status_code is None,
            final(self).content_type is None,
            final(self).response_duration is None,
            final(self).response_size is None,
            final(self).request_status is Loading,
    {
        self.request_status = RequestStatus::Loading;
        self.status_code = None;
        self.content_type = None;
        self.response_duration = None;
        self.response_size = None;
        self.generation = if self.generation == u64::MAX {
            0
        } else {
            self.generation + 1
        };
        self.generation
    }

    /// Applies the result of the request of generation `ticket`; a result of
    /// any other generation is dropped.
    pub fn receive(&mut self, ticket: u64, result: Result<HttpResponse, String>)
        ensures
            response_applied(*old(self), ticket, result, *final(self)),
    {
        if ticket != self.generation {
            return;
        }
        match result {
            Ok(response) => {
                let text = format_response(&response);
                let ct = content_type_in(&response.headers);
                self.status_code = Some(response.status);
                self.response_duration = Some(response.duration_ms);
                self.response_size = Some(response.size);
                self.content_type = Some(ct);
                self.request_status = RequestStatus::Success(text);
            },
            Err(e) => {
                let msg = String::from_str("Error: ").concat(e.as_str());
                self.request_status = RequestStatus::Error(msg);
                self.status_code = None;
                self.content_type = None;
                self.response_duration = None;
                self.response_size = None;
            },
        }
    }

    /// The text that a copy of the result takes: the rendered response or the
    /// error message; nothing while idle or loading.
    pub fn copy_text(&self) -> (r: Option<String>)
        ensures
            match self.request_status {
                RequestStatus::Success(t) => r == Some(t),
                RequestStatus::Error(m) => r == Some(m),
                _ => r is None,
            },
    {
        match &self.request_status {
            RequestStatus::Success(t) => Some(t.clone()),
            RequestStatus::Error(m) => Some(m.clone()),
            _ => None,
        }
    }

    /// Applies one edit or event.
    pub fn update(&mut self, message: Message)
        requires
            old(self).wf(),
        ensures
            final(self).wf(),
            view_updated(*old(self), message, *final(self)),
    {
        match message {
            Message::UrlInputChanged(u) => self.url_input = u,
            Message::MethodSelected(m) => self.method = m,
            Message::TabSelected(t) => self.active_tab = t,
            Message::AuthTypeSelected(t) => self.auth = auth_for_type(t),
            Message::AuthInputChanged(i) => self.auth.apply_input(i),
            Message::HeadersEditor(m) => self.headers_editor.update(m),
            Message::ParamsEditor(m) => self.params_editor.update(m),
            Message::BodyInputChanged(b) => self.body_input = b,
            Message::RequestContentTypeSelected(c) => self.request_content_type = c,
            Message::SendRequest => {},
            Message::SetLoading => {
                self.set_loading();
            },
            Message::ResponseReceived(ticket, result) => self.receive(ticket, result),
            Message::CopyResponse => {},
        }
    }
}

impl Default for HttpRequestView {
    fn default() -> (r: HttpRequestView)
        ensures
            r.wf(),
            is_fresh_view(r, "https://jsonplaceholder.typicode.com/todos/1"@),
    {
        HttpRequestView {
            url_input: String::from_str("https://jsonplaceholder.typicode.com/todos/1"),
            method: String::from_str("GET"),
            body_input: String::new(),
            auth: Auth::NoAuth,
            headers_editor: KeyValueEditor::new(String::from_str("Add Header")),
            params_editor: KeyValueEditor::new(String::from_str("Add Param")),
            active_tab: TabId::Body,
            request_status: RequestStatus::Idle,
            status_code: None,
            content_type: None,
            response_duration: None,
            response_size: None,
            request_content_type: ContentType::Json,
            generation: 0,
        }
    }
}

} // verus!

verus! {

/// Composing appends to the URL, after `?` or `&`, a query that decodes to
/// exactly the parameters with a key, in their order; with no such parameter
/// the URL is left as it is.
pub proof fn lemma_composed_query_decodes(v: HttpRequestView)
    ensures
        ({
            let pairs = non_empty_pairs(v.params_editor.entries@);
            let q = query_string(pairs);
            &&& parse_query(q) == pairs
            &&& pairs.len() == 0 ==> composed_url(v) == v.url_input@
            &&& pairs.len() > 0 ==> composed_url(v) == v.url_input@ + seq![
                if v.url_input@.contains('?') {
                    '&'
                } else {
                    '?'
                },
            ] + q
        }),
{
    let pairs = non_empty_pairs(v.params_editor.entries@);
    lemma_query_round_trip(pairs);
    if pairs.len() > 0 {
        crate::query::lemma_query_not_empty(pairs);
    }
}

/// Once the credential kind is switched, a composed request carries no header
/// made from the fields of the credential it replaced: its headers are those
/// it would have with no credential at all.
pub proof fn lemma_auth_switch_exclusive(v: HttpRequestView, t: AuthType, new: HttpRequestView)
    requires
        view_updated(v, Message::AuthTypeSelected(t), new),
    ensures
        composed_headers(new) == composed_headers(HttpRequestView { auth: Auth::NoAuth, ..v }),
{
}

/// A result of an earlier request that arrives once a newer request of the
/// same slot has started changes nothing, whether the newer request is still
/// loading or has already been answered.
pub proof fn lemma_stale_result_ignored(
    s0: HttpRequestView,
    s1: HttpRequestView,
    s2: HttpRequestView,
    s3: HttpRequestView,
    n1: HttpRequestView,
    n2: HttpRequestView,
    result_a: Result<HttpResponse, String>,
    result_b: Result<HttpResponse, String>,
)
    requires
        view_updated(s0, Message::SetLoading, s1),
        view_updated(s1, Message::SetLoading, s2),
        view_updated(s2, Message::ResponseReceived(s1.generation, result_a), n1),
        view_updated(s2, Message::ResponseReceived(s2.generation, result_b), s3),
        view_updated(s3, Message::ResponseReceived(s1.generation, result_a), n2),
    ensures
        n1 == s2,
        n2 == s3,
{
    assert(s3.generation == s2.generation);
}

} // verus!

verus! {

/// The decimal form of `n`, or `N/A` where there is none.
pub open spec fn number_or_na(n: Option<nat>) -> Seq<char> {
    match n {
        Some(k) => crate::text::decimal(k),
        None => "N/A"@,
    }
}

/// The four metadata captions of a slot: status, content type, time and size.
pub open spec fn metadata_captions(v: HttpRequestView) -> Seq<Seq<char>> {
    seq![
        "Status: "@ + number_or_na(
            match v.status_code {
                Some(s) => Some(s as nat),
                None => None,
            },
        ),
        "Content-Type: "@ + match v.content_type {
            Some(c) => c@,
            None => "N/A"@,
        },
        "Time: "@ + number_or_na(
            match v.response_duration {
                Some(d) => Some(d as nat),
                None => None,
            },
        ) + "ms"@,
        "Size: "@ + number_or_na(
            match v.response_size {
                Some(s) => Some(s as nat),
                None => None,
            },
        ) + " B"@,
    ]
}

/// `label`, then `n` in decimal or `N/A`, then `suffix`.
fn labeled_number(label: &str, n: Option<u64>, suffix: &str) -> (r: String)
    ensures
        r@ == label@ + number_or_na(
            match n {
                Some(k) => Some(k as nat),
                None => None,
            },
        ) + suffix@,
{
    let mut out = chars_of(label);
    match n {
        Some(k) => crate::text::push_decimal(&mut out, k),
        None => append_chars(&mut out, &chars_of("N/A")),
    }
    append_chars(&mut out, &chars_of(suffix));
    string_of(&out)
}

impl HttpRequestView {
    /// The metadata captions of the last response: status, content type,
    /// time and size, each `N/A` where it is not known.
    pub fn metadata_texts(&self) -> (r: Vec<String>)
        ensures
            r@.map_values(|s: String| s@) == metadata_captions(*self),
    {
        let status = labeled_number(
            "Status: ",
            match self.status_code {
                Some(s) => Some(s as u64),
                None => None,
            },
            "",
        );
        let mut ct = chars_of("Content-Type: ");
        match &self.content_type {
            Some(c) => append_chars(&mut ct, &chars_of(c.as_str())),
            None => append_chars(&mut ct, &chars_of("N/A")),
        }
        let time = labeled_number("Time: ", self.response_duration, "ms");
        let size = labeled_number("Size: ", self.response_size, " B");
        proof {
            reveal_strlit("");
        }
        let r = vec![status, string_of(&ct), time, size];
        assert(r@.map_values(|s: String| s@) =~= metadata_captions(*self));
        r
    }
}

} // verus!

verus! {

proof fn lemma_edits_keep_rest(
    v: HttpRequestView,
    t: AuthType,
    inputs: Seq<AuthInput>,
    views: Seq<HttpRequestView>,
    k: int,
)
    requires
        views.len() == inputs.len() + 1,
        view_updated(v, Message::AuthTypeSelected(t), views[0]),
        forall|i: int|
            0 <= i < inputs.len() ==> view_updated(
                #[trigger] views[i],
                Message::AuthInputChanged(inputs[i]),
                views[i + 1],
            ),
        0 <= k < views.len(),
    ensures
        views[k] == (HttpRequestView {
            auth: auth_after_inputs(views[0].auth, inputs.take(k)),
            ..v
        }),
    decreases k,
{
    if k == 0 {
        assert(inputs.take(0) =~= Seq::<AuthInput>::empty());
    } else {
        lemma_edits_keep_rest(v, t, inputs, views, k - 1);
        assert(view_updated(views[k - 1], Message::AuthInputChanged(inputs[k - 1]), views[k]));
        assert(inputs.take(k).drop_last() =~= inputs.take(k - 1));
        assert(inputs.take(k).last() == inputs[k - 1]);
    }
}

/// After the credential kind is switched to `t` and its fields are then
/// edited any number of times, a composed request carries the user's
/// headers, then a header derived from a credential of kind `t` whose every
/// field is empty or a value typed after the switch, then `Content-Type`; with
/// no credential kind its headers are those of a request with no credential.
pub proof fn lemma_auth_switch_then_edits(
    v: HttpRequestView,
    t: AuthType,
    inputs: Seq<AuthInput>,
    views: Seq<HttpRequestView>,
)
    requires
        views.len() == inputs.len() + 1,
        view_updated(v, Message::AuthTypeSelected(t), views[0]),
        forall|i: int|
            0 <= i < inputs.len() ==> view_updated(
                #[trigger] views[i],
                Message::AuthInputChanged(inputs[i]),
                views[i + 1],
            ),
    ensures
        ({
            let w = views.last();
            &&& w == (HttpRequestView { auth: w.auth, ..v })
            &&& composed_headers(w) == headers_for(
                v.headers_editor.entries@,
                w.auth,
                v.body_input@,
                v.request_content_type,
            )
            &&& auth_kind(w.auth) == t
            &&& fields_typed_in(w.auth, inputs)
            &&& t == AuthType::NoAuth ==> composed_headers(w) == composed_headers(
                (HttpRequestView { auth: Auth::NoAuth, ..v }),
            )
        }),
{
    let n = inputs.len() as int;
    lemma_edits_keep_rest(v, t, inputs, views, n);
    assert(inputs.take(n) =~= inputs);
    lemma_auth_fields_after_switch(views[0].auth, t, inputs);
}

} // verus!
