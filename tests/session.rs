use astranova::environment::Environment;
use astranova::environment_manager::Message as ManagerMessage;
use astranova::http_request_view::{Message as ViewMessage, RequestStatus};
use astranova::response::HttpResponse;
use astranova::session::{Action, Message, Session, View};

fn env(id: i32, endpoint: Option<&str>) -> Environment {
    Environment {
        id,
        name: format!("env{}", id),
        variables: vec![("host".to_string(), "api.test".to_string())],
        default_endpoint: endpoint.map(|s| s.to_string()),
    }
}

#[test]
fn send_composes_with_active_environment() {
    let mut s = Session::new(vec![env(1, None)]);
    s.update(Message::SelectEnvironment(1));
    s.update(Message::HttpRequestViewMsg(0, ViewMessage::UrlInputChanged("https://{{host}}/x".to_string())));
    match s.update(Message::HttpRequestViewMsg(0, ViewMessage::SendRequest)) {
        Action::Send { slot, ticket, request } => {
            assert_eq!(slot, 0);
            assert_eq!(request.url, "https://api.test/x");
            assert!(matches!(s.request_tabs[0].request_status, RequestStatus::Loading));
            let resp = HttpResponse {
                url: request.url.clone(),
                method: request.method.clone(),
                status: 201,
                headers: vec![],
                body: "done".to_string(),
                duration_ms: 1,
                size: 4,
            };
            s.update(Message::HttpRequestViewMsg(slot, ViewMessage::ResponseReceived(ticket, Ok(resp))));
            assert_eq!(s.request_tabs[0].status_code, Some(201));
        }
        _ => panic!("expected a request to send"),
    }
}

#[test]
fn message_for_missing_slot_is_ignored() {
    let mut s = Session::new(vec![]);
    assert!(matches!(s.update(Message::HttpRequestViewMsg(3, ViewMessage::SendRequest)), Action::Nothing));
    assert_eq!(s.request_tabs.len(), 1);
}

#[test]
fn tabs_open_close_select() {
    let mut s = Session::new(vec![env(1, Some("https://base.test"))]);
    s.update(Message::SelectEnvironment(1));
    s.update(Message::AddRequestTab);
    assert_eq!(s.request_tabs.len(), 2);
    assert_eq!(s.active_request_tab_index, 1);
    assert_eq!(s.request_tabs[1].url_input, "https://base.test");
    s.update(Message::CloseRequestTab(1));
    assert_eq!(s.request_tabs.len(), 1);
    assert_eq!(s.active_request_tab_index, 0);
    s.update(Message::CloseRequestTab(0));
    assert_eq!(s.request_tabs.len(), 1);
    s.update(Message::SelectRequestTab(5));
    assert_eq!(s.active_request_tab_index, 0);
}

#[test]
fn new_tab_without_endpoint_uses_default_url() {
    let mut s = Session::new(vec![env(1, Some(""))]);
    s.update(Message::SelectEnvironment(1));
    s.update(Message::AddRequestTab);
    assert_eq!(s.request_tabs[1].url_input, "https://jsonplaceholder.typicode.com/todos/1");
}

#[test]
fn environment_manager_actions() {
    let mut s = Session::new(vec![env(1, None)]);
    s.update(Message::SwitchView(View::EnvironmentManager));
    s.update(Message::EnvManagerMsg(ManagerMessage::NewEnvironmentNameChanged("qa".to_string())));
    match s.update(Message::EnvManagerMsg(ManagerMessage::CreateEnvironment)) {
        Action::CreateEnvironment(name) => assert_eq!(name, "qa"),
        _ => panic!("expected a create action"),
    }
    s.update(Message::EnvironmentCreated(Environment::created(2, "qa".to_string())));
    assert_eq!(s.environments.len(), 2);
    assert_eq!(s.env_manager_view.environments.len(), 2);
    assert!(s.env_manager_view.new_environment_name.is_empty());
    assert_eq!(s.env_manager_view.selected_environment.as_ref().unwrap().id, 2);
    match s.update(Message::EnvManagerMsg(ManagerMessage::SaveEnvironment)) {
        Action::SaveEnvironment(e) => assert_eq!(e.id, 2),
        _ => panic!("expected a save action"),
    }
    match s.update(Message::EnvManagerMsg(ManagerMessage::DeleteEnvironment)) {
        Action::DeleteEnvironment(id) => assert_eq!(id, 2),
        _ => panic!("expected a delete action"),
    }
    assert!(s.env_manager_view.selected_environment.is_none());
    s.update(Message::EnvironmentsLoaded(vec![env(1, None)]));
    assert_eq!(s.environments.len(), 1);
    assert!(matches!(s.update(Message::EnvManagerMsg(ManagerMessage::LoadEnvFile)), Action::PickEnvFile));
    s.update(Message::EnvFileLoaded(Some(vec![("K".to_string(), "V".to_string())])));
    assert_eq!(s.env_manager_view.variables_editor.entries[0].key, "K");
    s.update(Message::EnvManagerMsg(ManagerMessage::Close));
    assert_eq!(s.current_view, View::Main);
}

#[test]
fn tab_labels() {
    let mut s = Session::new(vec![]);
    assert_eq!(s.tab_label(0), "GET https://jsonplaceholder.t...");
    s.update(Message::HttpRequestViewMsg(0, ViewMessage::UrlInputChanged(String::new())));
    assert_eq!(s.tab_label(0), "New Request 1");
    s.update(Message::AddRequestTab);
    s.update(Message::HttpRequestViewMsg(1, ViewMessage::UrlInputChanged("http://a.b".to_string())));
    s.update(Message::HttpRequestViewMsg(1, ViewMessage::MethodSelected("POST".to_string())));
    assert_eq!(s.tab_label(1), "POST http://a.b");
    for _ in 0..10 {
        s.update(Message::AddRequestTab);
    }
    s.update(Message::HttpRequestViewMsg(11, ViewMessage::UrlInputChanged(String::new())));
    assert_eq!(s.tab_label(11), "New Request 12");
}

#[test]
fn variables_hints() {
    let mut s = Session::new(vec![env(1, None), Environment::created(2, "empty".to_string())]);
    assert_eq!(s.variables_hint(), None);
    s.update(Message::SelectEnvironment(2));
    assert_eq!(s.variables_hint(), Some("This environment has no variables.".to_string()));
    s.update(Message::SelectEnvironment(1));
    assert_eq!(s.variables_hint(), Some("Available: host".to_string()));
}
