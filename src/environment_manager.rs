//! The editor of stored environments: which one is selected, its name and
//! variables as edited, and the name of the next one to create.
use vstd::prelude::*;
use vstd::string::StringExecFns;
use crate::environment::{Environment, find_by_id, find_environment, same_environment};
use crate::key_value_editor::{self, KeyValueEditor, all_pairs, editor_updated, is_fresh_editor, pair_views, pairs_of};

verus! {

/// An edit or an event of the environment editor.
#[derive(Debug, Clone)]
pub enum Message {
    SelectEnvironment(i32),
    EnvironmentNameChanged(String),
    NewEnvironmentNameChanged(String),
    VariablesEditor(key_value_editor::Message),
    CreateEnvironment,
    SaveEnvironment,
    DeleteEnvironment,
    LoadEnvFile,
    UpdateVariables(Vec<(String, String)>),
    Close,
}

/// The environment editor.
#[derive(Debug, Clone)]
pub struct EnvironmentManagerView {
    pub environments: Vec<Environment>,
    pub selected_environment: Option<Environment>,
    pub new_environment_name: String,
    pub variables_editor: KeyValueEditor,
}

/// The editor's variables were replaced by `pairs`.
pub open spec fn variables_loaded(
    old: KeyValueEditor,
    pairs: Seq<(Seq<char>, Seq<char>)>,
    new: KeyValueEditor,
) -> bool {
    &&& new.button_text == old.button_text
    &&& old.next_id + pairs.len() <= usize::MAX ==> all_pairs(new.entries@) == pairs
}

/// `new` is `old` after `message`. Creating, deleting, loading a file and
/// closing are carried out by the caller and change nothing here but the
/// selection, which deleting clears.
pub open spec fn manager_updated(
    old: EnvironmentManagerView,
    message: Message,
    new: EnvironmentManagerView,
) -> bool {
    match message {
        Message::SelectEnvironment(id) => {
            &&& new.environments == old.environments
            &&& new.new_environment_name == old.new_environment_name
            &&& match (new.selected_environment, find_by_id(old.environments@, id)) {
                (Some(a), Some(b)) => same_environment(a, b) && variables_loaded(
                    old.variables_editor,
                    pair_views(b.variables@),
                    new.variables_editor,
                ),
                (None, None) => new.variables_editor == old.variables_editor,
                _ => false,
            }
        },
        Message::EnvironmentNameChanged(name) => new == EnvironmentManagerView {
            selected_environment: match old.selected_environment {
                Some(e) => Some(Environment { name: name, ..e }),
                None => None,
            },
            ..old
        },
        Message::NewEnvironmentNameChanged(name) => new == EnvironmentManagerView {
            new_environment_name: name,
            ..old
        },
        Message::VariablesEditor(m) => {
            &&& new == EnvironmentManagerView { variables_editor: new.variables_editor, ..old }
            &&& editor_updated(old.variables_editor, m, new.variables_editor)
        },
        Message::SaveEnvironment => {
            &&& new == EnvironmentManagerView {
                selected_environment: new.selected_environment,
                ..old
            }
            &&& match (old.selected_environment, new.selected_environment) {
                (Some(a), Some(b)) => {
                    &&& b == Environment { variables: b.variables, ..a }
                    &&& pair_views(b.variables@) == all_pairs(old.variables_editor.entries@)
                },
                (None, None) => true,
                _ => false,
            }
        },
        Message::DeleteEnvironment => new == EnvironmentManagerView {
            selected_environment: None,
            ..old
        },
        Message::UpdateVariables(vars) => {
            &&& new == EnvironmentManagerView { variables_editor: new.variables_editor, ..old }
            &&& variables_loaded(old.variables_editor, pair_views(vars@), new.variables_editor)
        },
        Message::CreateEnvironment => new == old,
        Message::LoadEnvFile => new == old,
        Message::Close => new == old,
    }
}

impl EnvironmentManagerView {
    /// The variables editor is well formed.
    pub open spec fn wf(&self) -> bool {
        self.variables_editor.wf()
    }

    /// The editor over `environments`, nothing selected.
    pub fn new(environments: Vec<Environment>) -> (r: Self)
        ensures
            r.wf(),
            r.environments == environments,
            r.selected_environment is None,
            r.new_environment_name@.len() == 0,
            is_fresh_editor(r.variables_editor, "Add Variable"@),
    {
        EnvironmentManagerView {
            environments,
            selected_environment: None,
            new_environment_name: String::new(),
            variables_editor: KeyValueEditor::new(String::from_str("Add Variable")),
        }
    }

    /// Applies one edit or event.
    pub fn update(&mut self, message: Message)
        requires
            old(self).wf(),
        ensures
            final(self).wf(),
            manager_updated(*old(self), message, *final(self)),
    {
        match message {
            Message::SelectEnvironment(id) => {
                let found = find_environment(&self.environments, id);
                match &found {
                    Some(env) => {
                        let pairs = crate::environment::copy_pairs(&env.variables);
                        self.variables_editor.set_pairs(pairs);
                    },
                    None => {},
                }
                self.selected_environment = found;
            },
            Message::EnvironmentNameChanged(name) => {
                let sel = self.selected_environment.take();
                self.selected_environment = match sel {
                    Some(e) => Some(
                        Environment {
                            id: e.id,
                            name,
                            variables: e.variables,
                            default_endpoint: e.default_endpoint,
                        },
                    ),
                    None => None,
                };
            },
            Message::NewEnvironmentNameChanged(name) => {
                self.new_environment_name = name;
            },
            Message::VariablesEditor(m) => self.variables_editor.update(m),
            Message::SaveEnvironment => {
                let vars = pairs_of(&self.variables_editor.entries);
                let sel = self.selected_environment.take();
                self.selected_environment = match sel {
                    Some(e) => Some(
                        Environment {
                            id: e.id,
                            name: e.name,
                            variables: vars,
                            default_endpoint: e.default_endpoint,
                        },
                    ),
                    None => None,
                };
            },
            Message::DeleteEnvironment => {
                self.selected_environment = None;
            },
            Message::UpdateVariables(vars) => self.variables_editor.set_pairs(vars),
            Message::CreateEnvironment => {},
            Message::LoadEnvFile => {},
            Message::Close => {},
        }
    }
}

} // verus!
