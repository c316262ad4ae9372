//! A whole working session: the request slots, the stored environments and
//! the active one, and the environment editor. Its transitions decide; the
//! caller carries out the returned action (sending a request, storing an
//! environment, picking a file) and feeds the outcome back as a message.
use vstd::prelude::*;
use vstd::view::View as _;
use crate::environment::{
    Environment, copy_environments, find_by_id, find_environment, same_environment,
    same_environments,
};
use crate::environment_manager::{self, EnvironmentManagerView, manager_updated, variables_loaded};
use crate::http_request_view::{self, HttpRequestView, is_composed, is_fresh_view, loading_state, view_updated};
use crate::key_value_editor::pair_views;
use crate::request::HttpRequest;
use crate::text::{append_chars, chars_of, string_of, sub_vec};
use vstd::string::StringExecFns;

verus! {

/// The screen a session shows.
#[derive(Debug, Clone, Copy, PartialEq, Eq, Structural)]
pub enum View {
    Main,
    EnvironmentManager,
}

/// An edit or an event of a session.
#[derive(Debug)]
pub enum Message {
    HttpRequestViewMsg(usize, http_request_view::Message),
    AddRequestTab,
    CloseRequestTab(usize),
    SelectRequestTab(usize),
    EnvManagerMsg(environment_manager::Message),
    EnvFileLoaded(Option<Vec<(String, String)>>),
    SelectEnvironment(i32),
    SwitchView(View),
    EnvironmentCreated(Environment),
    EnvironmentsLoaded(Vec<Environment>),
}

/// What the caller is to carry out after a transition.
#[derive(Debug)]
pub enum Action {
    Nothing,
    Send { slot: usize, ticket: u64, request: HttpRequest },
    CreateEnvironment(String),
    SaveEnvironment(Environment),
    DeleteEnvironment(i32),
    PickEnvFile,
}

/// A working session.
#[derive(Debug)]
pub struct Session {
    pub request_tabs: Vec<HttpRequestView>,
    pub active_request_tab_index: usize,
    pub environments: Vec<Environment>,
    pub active_environment: Option<Environment>,
    pub env_manager_view: EnvironmentManagerView,
    pub current_view: View,
}

/// `a` and `b` hold the same environment, or both none.
pub open spec fn same_option(a: Option<Environment>, b: Option<Environment>) -> bool {
    match (a, b) {
        (Some(x), Some(y)) => same_environment(x, y),
        (None, None) => true,
        _ => false,
    }
}

/// The URL a new slot starts with: the active environment's default base URL
/// where it has a non-empty one, else `fallback`.
pub open spec fn initial_url(active: Option<Environment>, fallback: Seq<char>) -> Seq<char> {
    match active {
        Some(e) => match e.default_endpoint {
            Some(u) => if u@.len() > 0 {
                u@
            } else {
                fallback
            },
            None => fallback,
        },
        None => fallback,
    }
}

/// `new` is `old` with only the environment editor changed.
pub open spec fn only_manager_changed(old: Session, new: Session) -> bool {
    new == Session { env_manager_view: new.env_manager_view, ..old }
}

/// `new` and `action` follow from `old` and `message`.
pub open spec fn session_updated(old: Session, message: Message, new: Session, action: Action) -> bool {
    match message {
        Message::HttpRequestViewMsg(i, m) => if i >= old.request_tabs@.len() {
            new == old && action is Nothing
        } else {
            let t = new.request_tabs@[i as int];
            &&& new == Session { request_tabs: new.request_tabs, ..old }
            &&& new.request_tabs@ == old.request_tabs@.update(i as int, t)
            &&& match m {
                http_request_view::Message::SendRequest => {
                    &&& t == loading_state(old.request_tabs@[i as int])
                    &&& action matches Action::Send { slot, ticket, request } && slot == i && ticket
                        == t.generation && is_composed(
                        old.request_tabs@[i as int],
                        old.active_environment,
                        request,
                    )
                },
                _ => view_updated(old.request_tabs@[i as int], m, t) && action is Nothing,
            }
        },
        Message::AddRequestTab => {
            let n = old.request_tabs@.len();
            let t = new.request_tabs@.last();
            &&& action is Nothing
            &&& new == Session {
                request_tabs: new.request_tabs,
                active_request_tab_index: new.active_request_tab_index,
                ..old
            }
            &&& n < usize::MAX ==> {
                &&& new.request_tabs@.len() == n + 1
                &&& new.request_tabs@.drop_last() == old.request_tabs@
                &&& new.active_request_tab_index == n
                &&& t.wf()
                &&& is_fresh_view(
                    t,
                    initial_url(
                        old.active_environment,
                        "https://jsonplaceholder.typicode.com/todos/1"@,
                    ),
                )
            }
        },
        Message::CloseRequestTab(i) => {
            &&& action is Nothing
            &&& if old.request_tabs@.len() > 1 && i < old.request_tabs@.len() {
                let rest = old.request_tabs@.remove(i as int);
                new == Session {
                    request_tabs: new.request_tabs,
                    active_request_tab_index: if old.active_request_tab_index >= rest.len() {
                        (rest.len() - 1) as usize
                    } else {
                        old.active_request_tab_index
                    },
                    ..old
                } && new.request_tabs@ == rest
            } else {
                new == old
            }
        },
        Message::SelectRequestTab(i) => {
            &&& action is Nothing
            &&& if i < old.request_tabs@.len() {
                new == Session { active_request_tab_index: i, ..old }
            } else {
                new == old
            }
        },
        Message::EnvManagerMsg(m) => {
            &&& new == Session {
                env_manager_view: new.env_manager_view,
                current_view: new.current_view,
                ..old
            }
            &&& manager_updated(old.env_manager_view, m, new.env_manager_view)
            &&& match m {
                environment_manager::Message::Close => new.current_view == View::Main,
                _ => new.current_view == old.current_view,
            }
            &&& match m {
                environment_manager::Message::CreateEnvironment => action matches Action::CreateEnvironment(
                    name,
                ) && name@ == old.env_manager_view.new_environment_name@,
                environment_manager::Message::SaveEnvironment => match new.env_manager_view.selected_environment {
                    Some(e) => action matches Action::SaveEnvironment(s) && same_environment(s, e),
                    None => action is Nothing,
                },
                environment_manager::Message::DeleteEnvironment => match old.env_manager_view.selected_environment {
                    Some(e) => action matches Action::DeleteEnvironment(id) && id == e.id,
                    None => action is Nothing,
                },
                environment_manager::Message::LoadEnvFile => action is PickEnvFile,
                _ => action is Nothing,
            }
        },
        Message::EnvFileLoaded(vars) => {
            &&& action is Nothing
            &&& match vars {
                Some(v) => {
                    &&& only_manager_changed(old, new)
                    &&& new.env_manager_view == EnvironmentManagerView {
                        variables_editor: new.env_manager_view.variables_editor,
                        ..old.env_manager_view
                    }
                    &&& variables_loaded(
                        old.env_manager_view.variables_editor,
                        pair_views(v@),
                        new.env_manager_view.variables_editor,
                    )
                },
                None => new == old,
            }
        },
        Message::SelectEnvironment(id) => {
            &&& action is Nothing
            &&& new == Session { active_environment: new.active_environment, ..old }
            &&& same_option(new.active_environment, find_by_id(old.environments@, id))
        },
        Message::SwitchView(v) => action is Nothing && new == Session { current_view: v, ..old },
        Message::EnvironmentCreated(env) => {
            &&& action is Nothing
            &&& new == Session {
                environments: new.environments,
                env_manager_view: new.env_manager_view,
                ..old
            }
            &&& new.environments@ == old.environments@.push(env)
            &&& same_environments(new.env_manager_view.environments@, new.environments@)
            &&& new.env_manager_view.new_environment_name@.len() == 0
            &&& same_option(new.env_manager_view.selected_environment, Some(env))
            &&& new.env_manager_view.variables_editor == old.env_manager_view.variables_editor
        },
        Message::EnvironmentsLoaded(envs) => {
            &&& action is Nothing
            &&& new == Session {
                environments: new.environments,
                env_manager_view: new.env_manager_view,
                ..old
            }
            &&& new.environments == envs
            &&& same_environments(new.env_manager_view.environments@, envs@)
            &&& new.env_manager_view.new_environment_name == old.env_manager_view.new_environment_name
            &&& new.env_manager_view.variables_editor == old.env_manager_view.variables_editor
            &&& match old.env_manager_view.selected_environment {
                Some(s) => same_option(
                    new.env_manager_view.selected_environment,
                    find_by_id(envs@, s.id),
                ),
                None => new.env_manager_view.selected_environment is None,
            }
        },
    }
}

impl Session {
    /// One slot at least, the active one among them, every slot and the
    /// environment editor well formed.
    pub open spec fn wf(&self) -> bool {
        &&& self.request_tabs@.len() >= 1
        &&& self.active_request_tab_index < self.request_tabs@.len()
        &&& forall|i: int| 0 <= i < self.request_tabs@.len() ==> #[trigger] self.request_tabs@[i].wf()
        &&& self.env_manager_view.wf()
    }

    /// A session over the stored `environments`: one fresh slot, no active
    /// environment, the main screen.
    pub fn new(environments: Vec<Environment>) -> (r: Session)
        ensures
            r.wf(),
            r.request_tabs@.len() == 1,
            is_fresh_view(r.request_tabs@[0], "https://jsonplaceholder.typicode.com/todos/1"@),
            r.active_request_tab_index == 0,
            r.environments == environments,
            same_environments(r.env_manager_view.environments@, environments@),
            r.env_manager_view.selected_environment is None,
            r.active_environment is None,
            r.current_view == View::Main,
    {
        let copies = copy_environments(&environments);
        Session {
            request_tabs: vec![HttpRequestView::default()],
            active_request_tab_index: 0,
            environments,
            active_environment: None,
            env_manager_view: EnvironmentManagerView::new(copies),
            current_view: View::Main,
        }
    }

    /// Applies one edit or event and says what the caller is to carry out.
    pub fn update(&mut self, message: Message) -> (action: Action)
        requires
            old(self).wf(),
        ensures
            final(self).wf(),
            session_updated(*old(self), message, *final(self), action),
    {
        match message {
            Message::HttpRequestViewMsg(i, m) => {
                if i >= self.request_tabs.len() {
                    return Action::Nothing;
                }
                let mut view = self.request_tabs.remove(i);
                let ghost before = view;
                assert(old(self).request_tabs@[i as int].wf());
                let action = match m {
                    http_request_view::Message::SendRequest => {
                        let request = view.compose(self.active_environment.as_ref());
                        let ticket = view.set_loading();
                        Action::Send { slot: i, ticket, request }
                    },
                    other => {
                        view.update(other);
                        Action::Nothing
                    },
                };
                assert(view.wf());
                self.request_tabs.insert(i, view);
                assert(self.request_tabs@ =~= old(self).request_tabs@.update(i as int, view));
                assert(before == old(self).request_tabs@[i as int]);
                assert forall|j: int| 0 <= j < self.request_tabs@.len() implies #[trigger] self.request_tabs@[j].wf() by {
                    if j != i {
                        assert(self.request_tabs@[j] == old(self).request_tabs@[j]);
                    } else {
                        assert(self.request_tabs@[j] == view);
                    }
                }
                action
            },
            Message::AddRequestTab => {
                if self.request_tabs.len() == usize::MAX {
                    return Action::Nothing;
                }
                let mut view = HttpRequestView::default();
                match &self.active_environment {
                    Some(env) => match &env.default_endpoint {
                        Some(url) => {
                            if !url.as_str().is_empty() {
                                view.url_input = url.clone();
                            }
                        },
                        None => {},
                    },
                    None => {},
                }
                self.request_tabs.push(view);
                self.active_request_tab_index = self.request_tabs.len() - 1;
                assert(self.request_tabs@.drop_last() =~= old(self).request_tabs@);
                assert forall|j: int| 0 <= j < self.request_tabs@.len() implies #[trigger] self.request_tabs@[j].wf() by {
                    if j < old(self).request_tabs@.len() {
                        assert(self.request_tabs@[j] == old(self).request_tabs@[j]);
                    }
                }
                Action::Nothing
            },
            Message::CloseRequestTab(i) => {
                if self.request_tabs.len() > 1 && i < self.request_tabs.len() {
                    self.request_tabs.remove(i);
                    assert forall|j: int| 0 <= j < self.request_tabs@.len() implies #[trigger] self.request_tabs@[j].wf() by {
                        if j < i {
                            assert(self.request_tabs@[j] == old(self).request_tabs@[j]);
                        } else {
                            assert(self.request_tabs@[j] == old(self).request_tabs@[j + 1]);
                        }
                    }
                    if self.active_request_tab_index >= self.request_tabs.len() {
                        self.active_request_tab_index = self.request_tabs.len() - 1;
                    }
                }
                Action::Nothing
            },
            Message::SelectRequestTab(i) => {
                if i < self.request_tabs.len() {
                    self.active_request_tab_index = i;
                }
                Action::Nothing
            },
            Message::EnvManagerMsg(m) => {
                // Deleting clears the editor's selection, so its id is read first.
                let deleting = match &m {
                    environment_manager::Message::DeleteEnvironment => match &self.env_manager_view.selected_environment {
                        Some(e) => Some(e.id),
                        None => None,
                    },
                    _ => None,
                };
                let creating = matches!(m, environment_manager::Message::CreateEnvironment);
                let saving = matches!(m, environment_manager::Message::SaveEnvironment);
                let picking = matches!(m, environment_manager::Message::LoadEnvFile);
                let closing = matches!(m, environment_manager::Message::Close);
                let name = self.env_manager_view.new_environment_name.clone();
                self.env_manager_view.update(m);
                if closing {
                    self.current_view = View::Main;
                }
                if creating {
                    Action::CreateEnvironment(name)
                } else if saving {
                    match &self.env_manager_view.selected_environment {
                        Some(e) => Action::SaveEnvironment(e.copy()),
                        None => Action::Nothing,
                    }
                } else if picking {
                    Action::PickEnvFile
                } else {
                    match deleting {
                        Some(id) => Action::DeleteEnvironment(id),
                        None => Action::Nothing,
                    }
                }
            },
            Message::EnvFileLoaded(vars) => {
                match vars {
                    Some(v) => self.env_manager_view.update(
                        environment_manager::Message::UpdateVariables(v),
                    ),
                    None => {},
                }
                Action::Nothing
            },
            Message::SelectEnvironment(id) => {
                self.active_environment = find_environment(&self.environments, id);
                Action::Nothing
            },
            Message::SwitchView(v) => {
                self.current_view = v;
                Action::Nothing
            },
            Message::EnvironmentCreated(env) => {
                let selected = env.copy();
                self.environments.push(env);
                self.env_manager_view.environments = copy_environments(&self.environments);
                self.env_manager_view.new_environment_name = String::new();
                self.env_manager_view.selected_environment = Some(selected);
                Action::Nothing
            },
            Message::EnvironmentsLoaded(envs) => {
                let reselected = match &self.env_manager_view.selected_environment {
                    Some(s) => find_environment(&envs, s.id),
                    None => None,
                };
                self.env_manager_view.environments = copy_environments(&envs);
                self.env_manager_view.selected_environment = reselected;
                self.environments = envs;
                Action::Nothing
            },
        }
    }
}

} // verus!

verus! {

/// The caption of the slot at position `index`: `New Request` and its number
/// counted from one while the URL is empty, else the method and the first 25
/// characters of the URL, with `...` where the URL is longer.
pub open spec fn tab_caption(url: Seq<char>, method: Seq<char>, index: nat) -> Seq<char> {
    if url.len() == 0 {
        "New Request "@ + crate::text::decimal(index + 1)
    } else if url.len() > 25 {
        method + " "@ + url.take(25) + "..."@
    } else {
        method + " "@ + url
    }
}

/// The keys of `vars` joined by `, `.
pub open spec fn joined_keys(vars: Seq<(Seq<char>, Seq<char>)>) -> Seq<char>
    decreases vars.len(),
{
    if vars.len() == 0 {
        seq![]
    } else if vars.len() == 1 {
        vars[0].0
    } else {
        joined_keys(vars.drop_last()) + ", "@ + vars.last().0
    }
}

/// The hint on the variables an environment offers.
pub open spec fn variables_caption(vars: Seq<(Seq<char>, Seq<char>)>) -> Seq<char> {
    if vars.len() == 0 {
        "This environment has no variables."@
    } else {
        "Available: "@ + joined_keys(vars)
    }
}

impl Session {
    /// The caption of the slot at position `index`.
    pub fn tab_label(&self, index: usize) -> (r: String)
        requires
            index < self.request_tabs@.len(),
            index < usize::MAX,
        ensures
            r@ == tab_caption(
                self.request_tabs@[index as int].url_input@,
                self.request_tabs@[index as int].method@,
                index as nat,
            ),
    {
        let tab = &self.request_tabs[index];
        let url = chars_of(tab.url_input.as_str());
        if url.len() == 0 {
            let mut out = chars_of("New Request ");
            crate::text::push_decimal(&mut out, (index + 1) as u64);
            return string_of(&out);
        }
        let mut out = chars_of(tab.method.as_str());
        append_chars(&mut out, &chars_of(" "));
        if url.len() > 25 {
            append_chars(&mut out, &sub_vec(&url, 0, 25));
            append_chars(&mut out, &chars_of("..."));
        } else {
            append_chars(&mut out, &url);
        }
        string_of(&out)
    }

    /// The hint on the variables of the active environment; none without one.
    pub fn variables_hint(&self) -> (r: Option<String>)
        ensures
            match self.active_environment {
                Some(e) => r matches Some(t) && t@ == variables_caption(pair_views(e.variables@)),
                None => r is None,
            },
    {
        match &self.active_environment {
            Some(e) => {
                let ghost vars = pair_views(e.variables@);
                if e.variables.len() == 0 {
                    return Some(String::from_str("This environment has no variables."));
                }
                let mut out = chars_of("Available: ");
                let mut i: usize = 0;
                while i < e.variables.len()
                    invariant
                        i <= e.variables@.len(),
                        vars == pair_views(e.variables@),
                        out@ == "Available: "@ + joined_keys(vars.take(i as int)),
                    decreases e.variables@.len() - i,
                {
                    if i > 0 {
                        append_chars(&mut out, &chars_of(", "));
                    }
                    append_chars(&mut out, &chars_of(e.variables[i].0.as_str()));
                    assert(vars.take(i + 1).drop_last() =~= vars.take(i as int));
                    proof {
                        if i == 0 {
                            assert(joined_keys(vars.take(0)) =~= Seq::<char>::empty());
                        }
                    }
                    assert(out@ =~= "Available: "@ + joined_keys(vars.take(i + 1)));
                    i = i + 1;
                }
                assert(vars.take(i as int) =~= vars);
                Some(string_of(&out))
            },
            None => None,
        }
    }
}

} // verus!
