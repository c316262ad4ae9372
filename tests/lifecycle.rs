use astranova::http_request_view::{HttpRequestView, Message, RequestStatus};
use astranova::response::HttpResponse;

fn ok_response(body: &str) -> HttpResponse {
    HttpResponse {
        url: "https://api.test/items".to_string(),
        method: "GET".to_string(),
        status: 200,
        headers: vec![("content-type".to_string(), "application/json".to_string())],
        body: body.to_string(),
        duration_ms: 30,
        size: body.len() as u64,
    }
}

#[test]
fn loading_clears_metadata() {
    let mut v = HttpRequestView::default();
    let t = v.set_loading();
    v.receive(t, Ok(ok_response("{}")));
    assert_eq!(v.status_code, Some(200));
    assert_eq!(v.content_type, Some("application/json".to_string()));
    assert_eq!(v.response_duration, Some(30));
    assert_eq!(v.response_size, Some(2));
    v.update(Message::SetLoading);
    assert!(matches!(v.request_status, RequestStatus::Loading));
    assert_eq!(v.status_code, None);
    assert_eq!(v.content_type, None);
    assert_eq!(v.response_duration, None);
    assert_eq!(v.response_size, None);
}

#[test]
fn stale_result_does_not_overwrite_newer_request() {
    let mut v = HttpRequestView::default();
    let a = v.set_loading();
    let b = v.set_loading();
    assert_ne!(a, b);
    v.update(Message::ResponseReceived(a, Ok(ok_response("{\"a\":1}"))));
    assert!(matches!(v.request_status, RequestStatus::Loading));
    assert_eq!(v.status_code, None);
    v.update(Message::ResponseReceived(b, Ok(ok_response("{\"b\":2}"))));
    let after_b = v.copy_text().unwrap();
    assert!(after_b.contains("\"b\": 2"));
    v.update(Message::ResponseReceived(a, Err("late".to_string())));
    assert_eq!(v.copy_text().unwrap(), after_b);
    assert_eq!(v.status_code, Some(200));
}

#[test]
fn error_result_sets_message_and_clears_metadata() {
    let mut v = HttpRequestView::default();
    let t = v.set_loading();
    v.receive(t, Err("connection refused".to_string()));
    match &v.request_status {
        RequestStatus::Error(m) => assert_eq!(m, "Error: connection refused"),
        _ => panic!("expected an error state"),
    }
    assert_eq!(v.status_code, None);
    assert_eq!(v.copy_text(), Some("Error: connection refused".to_string()));
}

#[test]
fn nothing_to_copy_while_idle_or_loading() {
    let mut v = HttpRequestView::default();
    assert_eq!(v.copy_text(), None);
    v.set_loading();
    assert_eq!(v.copy_text(), None);
}

#[test]
fn generation_wraps_around() {
    let mut v = HttpRequestView::default();
    v.generation = u64::MAX;
    assert_eq!(v.set_loading(), 0);
}

#[test]
fn default_view() {
    let v = HttpRequestView::default();
    assert_eq!(v.url_input, "https://jsonplaceholder.typicode.com/todos/1");
    assert_eq!(v.method, "GET");
    assert!(matches!(v.request_status, RequestStatus::Idle));
}

#[test]
fn metadata_captions_before_and_after_a_response() {
    let mut v = HttpRequestView::default();
    assert_eq!(v.metadata_texts(), vec!["Status: N/A", "Content-Type: N/A", "Time: N/Ams", "Size: N/A B"]);
    let t = v.set_loading();
    v.receive(t, Ok(ok_response("{\"k\":10}")));
    assert_eq!(
        v.metadata_texts(),
        vec!["Status: 200", "Content-Type: application/json", "Time: 30ms", "Size: 8 B"]
    );
}
