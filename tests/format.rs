use astranova::format::{body_text_with, content_type_in, format_response, format_response_given};
use astranova::request::HttpRequest;
use astranova::response::{response_from_parts, HttpResponse};

fn response(headers: &[(&str, &str)], body: &str) -> HttpResponse {
    HttpResponse {
        url: "https://api.test/items?q=a%20b".to_string(),
        method: "GET".to_string(),
        status: 200,
        headers: headers.iter().map(|(k, v)| (k.to_string(), v.to_string())).collect(),
        body: body.to_string(),
        duration_ms: 12,
        size: body.len() as u64,
    }
}

#[test]
fn end_to_end_pretty_json_and_trailer() {
    let r = response(&[("content-type", "application/json")], "{\"ok\":true}");
    let t = format_response(&r);
    assert!(t.contains("{\n  \"ok\": true\n}"));
    assert!(t.contains("URL: https://api.test/items?q=a%20b"));
    assert!(t.contains("Method: GET"));
    assert!(t.contains("  content-type: application/json\n"));
}

#[test]
fn non_json_body_under_json_type_is_shown_raw() {
    let r = response(&[("Content-Type", "application/json; charset=utf-8")], "not json {");
    let t = format_response(&r);
    assert!(t.contains("\nBody: not json {\n"));
}

#[test]
fn json_body_under_other_type_is_not_reindented() {
    let r = response(&[("Content-Type", "text/plain")], "{\"ok\":true}");
    assert!(format_response(&r).contains("\nBody: {\"ok\":true}\n"));
}

#[test]
fn exact_rendering() {
    let r = response(&[("a", "1")], "x");
    assert_eq!(
        format_response_given(&r, None),
        "Headers:\n  a: 1\n\nBody: x\n\n--------------------\nURL: https://api.test/items?q=a%20b\nMethod: GET"
    );
}

#[test]
fn body_text_given_pretty_form() {
    assert_eq!(body_text_with("application/json", "{}", Some("P".to_string())), "P");
    assert_eq!(body_text_with("application/json", "{", None), "{");
    assert_eq!(body_text_with("text/html", "{}", Some("P".to_string())), "{}");
}

#[test]
fn content_type_lookup_ignores_case_and_defaults() {
    let h = vec![("X".to_string(), "1".to_string()), ("CONTENT-TYPE".to_string(), "text/html".to_string()), ("content-type".to_string(), "b".to_string())];
    assert_eq!(content_type_in(&h), "text/html");
    assert_eq!(content_type_in(&vec![]), "unknown");
}

#[test]
fn response_record_from_parts() {
    let req = HttpRequest { method: "POST".to_string(), url: "http://h/x".to_string(), headers: vec![], body: None };
    let r = response_from_parts(
        &req,
        404,
        vec![("a".to_string(), Some("v".to_string())), ("b".to_string(), None)],
        "é!".to_string(),
        7,
    );
    assert_eq!(r.url, "http://h/x");
    assert_eq!(r.method, "POST");
    assert_eq!(r.status, 404);
    assert_eq!(r.headers, vec![("a".to_string(), "v".to_string()), ("b".to_string(), String::new())]);
    assert_eq!(r.size, 3);
    assert_eq!(r.duration_ms, 7);
}
