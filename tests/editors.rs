use astranova::environment::{environment_from_row, parse_env_file, variables_json, Environment};
use astranova::environment_manager::{EnvironmentManagerView, Message};
use astranova::key_value_editor::{KeyValueEditor, KeyValueEntry, Message as EditorMessage};

fn env(id: i32, name: &str, vars: &[(&str, &str)]) -> Environment {
    Environment {
        id,
        name: name.to_string(),
        variables: vars.iter().map(|(k, v)| (k.to_string(), v.to_string())).collect(),
        default_endpoint: None,
    }
}

#[test]
fn new_entry_is_empty() {
    let e = KeyValueEntry::new(7);
    assert_eq!(e.id, 7);
    assert!(e.key.is_empty() && e.value.is_empty());
}

#[test]
fn editor_add_edit_remove() {
    let mut ed = KeyValueEditor::new("Add".to_string());
    assert_eq!(ed.entries.len(), 1);
    ed.update(EditorMessage::AddEntry);
    ed.update(EditorMessage::AddEntry);
    let ids: Vec<usize> = ed.entries.iter().map(|e| e.id).collect();
    assert_eq!(ids, vec![0, 1, 2]);
    ed.update(EditorMessage::EntryKeyChanged(1, "k".to_string()));
    ed.update(EditorMessage::EntryValueChanged(1, "v".to_string()));
    assert_eq!(ed.entries[1].key, "k");
    assert_eq!(ed.entries[1].value, "v");
    ed.update(EditorMessage::RemoveEntry(1));
    let ids: Vec<usize> = ed.entries.iter().map(|e| e.id).collect();
    assert_eq!(ids, vec![0, 2]);
    ed.update(EditorMessage::AddEntry);
    assert_eq!(ed.entries.last().unwrap().id, 3);
}

#[test]
fn editor_ignores_unknown_ids() {
    let mut ed = KeyValueEditor::new("Add".to_string());
    ed.update(EditorMessage::EntryKeyChanged(9, "k".to_string()));
    ed.update(EditorMessage::RemoveEntry(9));
    assert_eq!(ed.entries.len(), 1);
    assert!(ed.entries[0].key.is_empty());
}

#[test]
fn editor_set_pairs_gives_fresh_ids() {
    let mut ed = KeyValueEditor::new("Add".to_string());
    ed.set_pairs(vec![("a".to_string(), "1".to_string()), ("b".to_string(), "2".to_string())]);
    let ids: Vec<usize> = ed.entries.iter().map(|e| e.id).collect();
    assert_eq!(ids, vec![1, 2]);
    assert_eq!(ed.entries[1].key, "b");
    ed.update(EditorMessage::AddEntry);
    assert_eq!(ed.entries.last().unwrap().id, 3);
}

#[test]
fn env_file_lines() {
    let text = "# comment\n\n  A = 1 \r\nB=2=3\nno equals\n  #x=1\n=empty\nC=\n";
    let vars = parse_env_file(text);
    let expected: Vec<(String, String)> = vec![
        ("A".to_string(), "1".to_string()),
        ("B".to_string(), "2=3".to_string()),
        ("".to_string(), "empty".to_string()),
        ("C".to_string(), "".to_string()),
    ];
    assert_eq!(vars, expected);
    assert!(parse_env_file("").is_empty());
    assert_eq!(parse_env_file("K=V"), vec![("K".to_string(), "V".to_string())]);
}

#[test]
fn stored_variables_round_trip() {
    let e = env(3, "dev", &[("a", "b"), ("c", "d")]);
    let json = variables_json(&e);
    assert_eq!(json, "[[\"a\",\"b\"],[\"c\",\"d\"]]");
    let back = environment_from_row(3, "dev".to_string(), &json, Some("http://x".to_string())).unwrap();
    assert_eq!(back.variables, e.variables);
    assert_eq!(back.default_endpoint, Some("http://x".to_string()));
    assert!(environment_from_row(3, "dev".to_string(), "{oops", None).is_none());
}

#[test]
fn created_environment_is_empty() {
    let e = Environment::created(5, "qa".to_string());
    assert_eq!(e.id, 5);
    assert_eq!(e.name, "qa");
    assert!(e.variables.is_empty() && e.default_endpoint.is_none());
}

#[test]
fn manager_select_edit_save_delete() {
    let mut m = EnvironmentManagerView::new(vec![env(1, "one", &[("x", "1")]), env(2, "two", &[])]);
    assert!(m.selected_environment.is_none());
    m.update(Message::SelectEnvironment(1));
    assert_eq!(m.selected_environment.as_ref().unwrap().name, "one");
    assert_eq!(m.variables_editor.entries.len(), 1);
    assert_eq!(m.variables_editor.entries[0].key, "x");
    m.update(Message::EnvironmentNameChanged("uno".to_string()));
    m.update(Message::VariablesEditor(EditorMessage::EntryValueChanged(m.variables_editor.entries[0].id, "9".to_string())));
    m.update(Message::SaveEnvironment);
    let sel = m.selected_environment.clone().unwrap();
    assert_eq!(sel.name, "uno");
    assert_eq!(sel.variables, vec![("x".to_string(), "9".to_string())]);
    m.update(Message::UpdateVariables(vec![("k".to_string(), "v".to_string())]));
    assert_eq!(m.variables_editor.entries.len(), 1);
    assert_eq!(m.variables_editor.entries[0].key, "k");
    m.update(Message::DeleteEnvironment);
    assert!(m.selected_environment.is_none());
    m.update(Message::SelectEnvironment(42));
    assert!(m.selected_environment.is_none());
}

#[test]
fn default_editor_has_one_entry() {
    let ed = KeyValueEditor::default();
    assert_eq!(ed.entries.len(), 1);
    assert_eq!(ed.button_text, "Add Entry");
}
