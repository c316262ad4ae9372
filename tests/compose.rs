use astranova::auth::{Auth, AuthInput, AuthType};
use astranova::environment::{apply_environment, substitute_text, Environment};
use astranova::http_request_view::{ContentType, HttpRequestView, Message};
use astranova::key_value_editor::{KeyValueEntry, Message as EditorMessage};
use astranova::query::query_string_of;

fn entry(id: usize, key: &str, value: &str) -> KeyValueEntry {
    KeyValueEntry { id, key: key.to_string(), value: value.to_string() }
}

fn view_with(url: &str, params: &[(&str, &str)]) -> HttpRequestView {
    let mut v = HttpRequestView::default();
    v.url_input = url.to_string();
    v.params_editor.entries = params.iter().enumerate().map(|(i, (k, val))| entry(i, k, val)).collect();
    v.params_editor.next_id = params.len();
    v
}

fn env(vars: &[(&str, &str)]) -> Environment {
    Environment {
        id: 1,
        name: "dev".to_string(),
        variables: vars.iter().map(|(k, v)| (k.to_string(), v.to_string())).collect(),
        default_endpoint: None,
    }
}

fn authorization(headers: &[(String, String)]) -> Vec<String> {
    headers.iter().filter(|(k, _)| k == "Authorization").map(|(_, v)| v.clone()).collect()
}

#[test]
fn end_to_end_url_with_encoded_query() {
    let v = view_with("https://api.test/items", &[("q", "a b")]);
    let r = v.build_request();
    assert_eq!(r.url, "https://api.test/items?q=a%20b");
    assert_eq!(r.method, "GET");
    assert!(r.body.is_none());
    assert!(r.headers.is_empty());
}

#[test]
fn query_skips_empty_keys_and_keeps_order() {
    let entries = vec![entry(0, "b", "2"), entry(1, "", "x"), entry(2, "a", "1")];
    assert_eq!(query_string_of(&entries), "b=2&a=1");
}

#[test]
fn query_encodes_reserved_and_non_ascii() {
    let entries = vec![entry(0, "k&=", "é/~-._")];
    assert_eq!(query_string_of(&entries), "k%26%3D=%C3%A9%2F~-._");
}

#[test]
fn query_of_no_entries_is_empty() {
    assert_eq!(query_string_of(&vec![]), "");
    assert_eq!(query_string_of(&vec![entry(0, "", "v")]), "");
}

#[test]
fn url_with_question_mark_gets_ampersand() {
    let v = view_with("https://x.test/p?a=1", &[("b", "2")]);
    assert_eq!(v.build_request().url, "https://x.test/p?a=1&b=2");
}

#[test]
fn url_without_params_is_unchanged() {
    let v = view_with("https://x.test/p", &[("", "2")]);
    assert_eq!(v.build_request().url, "https://x.test/p");
}

#[test]
fn bearer_token_header() {
    let mut v = view_with("u", &[]);
    v.auth = Auth::BearerToken("tok".to_string());
    assert_eq!(authorization(&v.build_request().headers), vec!["Bearer tok".to_string()]);
    v.auth = Auth::BearerToken(String::new());
    assert!(authorization(&v.build_request().headers).is_empty());
}

#[test]
fn basic_auth_header_is_base64_of_user_colon_pass() {
    let mut v = view_with("u", &[]);
    v.auth = Auth::Basic { user: "user".to_string(), pass: "pass".to_string() };
    assert_eq!(authorization(&v.build_request().headers), vec!["Basic dXNlcjpwYXNz".to_string()]);
    v.auth = Auth::Basic { user: String::new(), pass: "pass".to_string() };
    assert_eq!(authorization(&v.build_request().headers), vec!["Basic OnBhc3M=".to_string()]);
    v.auth = Auth::Basic { user: String::new(), pass: String::new() };
    assert!(authorization(&v.build_request().headers).is_empty());
}

#[test]
fn switching_auth_kind_discards_old_credential() {
    let mut v = view_with("u", &[]);
    v.update(Message::AuthTypeSelected(AuthType::BearerToken));
    v.update(Message::AuthInputChanged(AuthInput::BearerToken("secret".to_string())));
    assert_eq!(authorization(&v.build_request().headers), vec!["Bearer secret".to_string()]);
    v.update(Message::AuthTypeSelected(AuthType::BasicAuth));
    assert!(authorization(&v.build_request().headers).is_empty());
    v.update(Message::AuthTypeSelected(AuthType::BearerToken));
    assert!(authorization(&v.build_request().headers).is_empty());
    assert_eq!(v.current_auth_type(), AuthType::BearerToken);
}

#[test]
fn input_for_inactive_kind_changes_nothing() {
    let mut v = view_with("u", &[]);
    v.update(Message::AuthTypeSelected(AuthType::BasicAuth));
    v.update(Message::AuthInputChanged(AuthInput::BearerToken("t".to_string())));
    v.update(Message::AuthInputChanged(AuthInput::BasicUser("me".to_string())));
    match &v.auth {
        Auth::Basic { user, pass } => {
            assert_eq!(user, "me");
            assert_eq!(pass, "");
        }
        _ => panic!("expected basic credentials"),
    }
}

#[test]
fn user_headers_then_auth_then_content_type() {
    let mut v = view_with("u", &[]);
    v.update(Message::HeadersEditor(EditorMessage::EntryKeyChanged(0, "Authorization".to_string())));
    v.update(Message::HeadersEditor(EditorMessage::EntryValueChanged(0, "Mine".to_string())));
    v.update(Message::HeadersEditor(EditorMessage::AddEntry));
    v.auth = Auth::BearerToken("t".to_string());
    v.update(Message::BodyInputChanged("<a/>".to_string()));
    v.update(Message::RequestContentTypeSelected(ContentType::Xml));
    let r = v.build_request();
    assert_eq!(
        r.headers,
        vec![
            ("Authorization".to_string(), "Mine".to_string()),
            ("Authorization".to_string(), "Bearer t".to_string()),
            ("Content-Type".to_string(), "application/xml".to_string()),
        ]
    );
    assert_eq!(r.body, Some("<a/>".to_string()));
}

#[test]
fn content_type_values() {
    assert_eq!(ContentType::Json.mime(), "application/json");
    assert_eq!(ContentType::Text.mime(), "text/plain");
    assert_eq!(ContentType::Html.mime(), "text/html");
    assert_eq!(ContentType::Xml.mime(), "application/xml");
    assert_eq!(ContentType::Html.label(), "HTML");
    assert_eq!(AuthType::BasicAuth.label(), "Basic Auth");
}

#[test]
fn substitution_repeats_and_is_single_pass() {
    let vars = vec![("X".to_string(), "1".to_string())];
    assert_eq!(substitute_text("{{X}}{{X}}", &vars), "11");
    let selfref = vec![("X".to_string(), "{{X}}".to_string())];
    assert_eq!(substitute_text("a{{X}}b", &selfref), "a{{X}}b");
    assert_eq!(substitute_text("{{Y}} {X}", &vars), "{{Y}} {X}");
}

#[test]
fn substitution_applies_variables_in_order() {
    let vars = vec![("A".to_string(), "{{B}}".to_string()), ("B".to_string(), "2".to_string())];
    assert_eq!(substitute_text("{{A}}", &vars), "2");
    let reversed = vec![("B".to_string(), "2".to_string()), ("A".to_string(), "{{B}}".to_string())];
    assert_eq!(substitute_text("{{A}}", &reversed), "{{B}}");
}

#[test]
fn compose_substitutes_url_header_values_and_body() {
    let mut v = view_with("https://{{host}}/items", &[("q", "{{host}}")]);
    v.update(Message::HeadersEditor(EditorMessage::EntryKeyChanged(0, "X-{{host}}".to_string())));
    v.update(Message::HeadersEditor(EditorMessage::EntryValueChanged(0, "{{token}}".to_string())));
    v.update(Message::BodyInputChanged("{\"t\":\"{{token}}\"}".to_string()));
    let e = env(&[("host", "api.test"), ("token", "abc")]);
    let r = v.compose(Some(&e));
    assert_eq!(r.url, "https://api.test/items?q=%7B%7Bhost%7D%7D");
    assert_eq!(r.headers[0], ("X-{{host}}".to_string(), "abc".to_string()));
    assert_eq!(r.body, Some("{\"t\":\"abc\"}".to_string()));
    let plain = v.compose(None);
    assert_eq!(plain.url, "https://{{host}}/items?q=%7B%7Bhost%7D%7D");
}

#[test]
fn apply_environment_keeps_missing_body() {
    let v = view_with("{{u}}", &[]);
    let r = apply_environment(v.build_request(), &env(&[("u", "x")]));
    assert_eq!(r.url, "x");
    assert!(r.body.is_none());
}

#[test]
fn header_after_switch_uses_only_values_typed_afterwards() {
    let mut v = view_with("u", &[]);
    v.update(Message::AuthTypeSelected(AuthType::BearerToken));
    v.update(Message::AuthInputChanged(AuthInput::BearerToken("old".to_string())));
    v.update(Message::AuthTypeSelected(AuthType::BasicAuth));
    v.update(Message::AuthInputChanged(AuthInput::BearerToken("ignored".to_string())));
    v.update(Message::AuthInputChanged(AuthInput::BasicUser("u".to_string())));
    assert_eq!(authorization(&v.build_request().headers), vec!["Basic dTo=".to_string()]);
    v.update(Message::AuthTypeSelected(AuthType::NoAuth));
    assert!(authorization(&v.build_request().headers).is_empty());
}
