//! What is said to herdr and what herdr answers.

use crate::definition::{LayoutNode, LayoutView};
use crate::process::{ProcessInfo, ProcessInfoView};
use crate::text::{framed, joined, Text};
use vstd::prelude::*;

verus! {

/// A running workspace.
#[derive(Debug, PartialEq, Eq)]
pub struct Workspace {
    pub id: String,
    /// The selected tab. Tabs do not tell by themselves: in a workspace without
    /// the focus none of them counts as focused.
    pub active_tab_id: String,
    pub label: String,
}

/// A tab of a running workspace.
#[derive(Debug, PartialEq, Eq)]
pub struct TabRow {
    pub tab_id: String,
    pub label: String,
}

/// Where a layout goes.
#[derive(Debug, PartialEq, Eq)]
pub enum Target {
    /// In place of a tab.
    Tab(String),
    /// Into a new tab, behind the other tabs of a workspace.
    Workspace(String),
}

/// What herdr is asked for.
#[derive(Debug, PartialEq, Eq)]
pub enum Request {
    /// The pane with the given id, or the one that has the focus.
    CurrentPane { caller_pane_id: Option<String> },
    ListWorkspaces,
    ListTabs { workspace_id: String },
    ExportLayout { tab_id: String },
    InspectPane { pane_id: String },
    Notify { title: String },
    CloseWorkspace { workspace_id: String },
    CreateWorkspace { label: String },
    ApplyLayout { root: LayoutNode, target: Target, tab_label: Option<String> },
    FocusTab { tab_id: String },
    FocusWorkspace { workspace_id: String },
}

/// What herdr answers.
#[derive(Debug, PartialEq, Eq)]
pub enum Reply {
    CurrentPane { workspace_id: String },
    Workspaces(Vec<Workspace>),
    Tabs(Vec<TabRow>),
    Layout(LayoutNode),
    Processes(ProcessInfo),
    Created { workspace_id: String, tab_id: String },
    Applied { tab_id: String },
    Done,
}

/// The value of a request's parameter.
#[derive(Debug, PartialEq, Eq)]
pub enum Value {
    Text(String),
    Flag(bool),
    Null,
    Layout(LayoutNode),
}

/// A parameter of a request.
#[derive(Debug, PartialEq, Eq)]
pub struct Parameter {
    pub name: String,
    pub value: Value,
}

/// A request as it is sent.
#[derive(Debug, PartialEq, Eq)]
pub struct Message {
    pub id: String,
    pub method: String,
    pub params: Vec<Parameter>,
}

/// The model of a `Workspace`.
pub struct WorkspaceView {
    pub id: Text,
    pub active_tab_id: Text,
    pub label: Text,
}

/// The model of a `TabRow`.
pub struct TabRowView {
    pub tab_id: Text,
    pub label: Text,
}

/// The model of a `Target`.
pub enum TargetView {
    Tab(Text),
    Workspace(Text),
}

/// The model of a `Request`.
pub enum RequestView {
    CurrentPane { caller_pane_id: Option<Text> },
    ListWorkspaces,
    ListTabs { workspace_id: Text },
    ExportLayout { tab_id: Text },
    InspectPane { pane_id: Text },
    Notify { title: Text },
    CloseWorkspace { workspace_id: Text },
    CreateWorkspace { label: Text },
    ApplyLayout { root: LayoutView, target: TargetView, tab_label: Option<Text> },
    FocusTab { tab_id: Text },
    FocusWorkspace { workspace_id: Text },
}

/// The model of a `Reply`.
pub enum ReplyView {
    CurrentPane { workspace_id: Text },
    Workspaces(Seq<WorkspaceView>),
    Tabs(Seq<TabRowView>),
    Layout(LayoutView),
    Processes(ProcessInfoView),
    Created { workspace_id: Text, tab_id: Text },
    Applied { tab_id: Text },
    Done,
}

/// The model of a `Value`.
pub enum ValueView {
    Text(Text),
    Flag(bool),
    Null,
    Layout(LayoutView),
}

/// The model of a `Message`. A parameter is its name with its value.
pub struct MessageView {
    pub id: Text,
    pub method: Text,
    pub params: Seq<(Text, ValueView)>,
}

impl DeepView for Workspace {
    type V = WorkspaceView;

    open spec fn deep_view(&self) -> WorkspaceView {
        WorkspaceView { id: self.id@, active_tab_id: self.active_tab_id@, label: self.label@ }
    }
}

impl DeepView for TabRow {
    type V = TabRowView;

    open spec fn deep_view(&self) -> TabRowView {
        TabRowView { tab_id: self.tab_id@, label: self.label@ }
    }
}

impl DeepView for Target {
    type V = TargetView;

    open spec fn deep_view(&self) -> TargetView {
        match *self {
            Target::Tab(id) => TargetView::Tab(id@),
            Target::Workspace(id) => TargetView::Workspace(id@),
        }
    }
}

impl DeepView for Request {
    type V = RequestView;

    open spec fn deep_view(&self) -> RequestView {
        match *self {
            Request::CurrentPane { caller_pane_id } => RequestView::CurrentPane {
                caller_pane_id: caller_pane_id.deep_view(),
            },
            Request::ListWorkspaces => RequestView::ListWorkspaces,
            Request::ListTabs { workspace_id } => RequestView::ListTabs {
                workspace_id: workspace_id@,
            },
            Request::ExportLayout { tab_id } => RequestView::ExportLayout { tab_id: tab_id@ },
            Request::InspectPane { pane_id } => RequestView::InspectPane { pane_id: pane_id@ },
            Request::Notify { title } => RequestView::Notify { title: title@ },
            Request::CloseWorkspace { workspace_id } => RequestView::CloseWorkspace {
                workspace_id: workspace_id@,
            },
            Request::CreateWorkspace { label } => RequestView::CreateWorkspace { label: label@ },
            Request::ApplyLayout { root, target, tab_label } => RequestView::ApplyLayout {
                root: root.tree(),
                target: target.deep_view(),
                tab_label: tab_label.deep_view(),
            },
            Request::FocusTab { tab_id } => RequestView::FocusTab { tab_id: tab_id@ },
            Request::FocusWorkspace { workspace_id } => RequestView::FocusWorkspace {
                workspace_id: workspace_id@,
            },
        }
    }
}

impl DeepView for Reply {
    type V = ReplyView;

    open spec fn deep_view(&self) -> ReplyView {
        match *self {
            Reply::CurrentPane { workspace_id } => ReplyView::CurrentPane {
                workspace_id: workspace_id@,
            },
            Reply::Workspaces(workspaces) => ReplyView::Workspaces(workspaces.deep_view()),
            Reply::Tabs(tabs) => ReplyView::Tabs(tabs.deep_view()),
            Reply::Layout(root) => ReplyView::Layout(root.tree()),
            Reply::Processes(info) => ReplyView::Processes(info.deep_view()),
            Reply::Created { workspace_id, tab_id } => ReplyView::Created {
                workspace_id: workspace_id@,
                tab_id: tab_id@,
            },
            Reply::Applied { tab_id } => ReplyView::Applied { tab_id: tab_id@ },
            Reply::Done => ReplyView::Done,
        }
    }
}

impl DeepView for Value {
    type V = ValueView;

    open spec fn deep_view(&self) -> ValueView {
        match *self {
            Value::Text(text) => ValueView::Text(text@),
            Value::Flag(flag) => ValueView::Flag(flag),
            Value::Null => ValueView::Null,
            Value::Layout(root) => ValueView::Layout(root.tree()),
        }
    }
}

impl DeepView for Parameter {
    type V = (Text, ValueView);

    open spec fn deep_view(&self) -> (Text, ValueView) {
        (self.name@, self.value.deep_view())
    }
}

impl DeepView for Message {
    type V = MessageView;

    open spec fn deep_view(&self) -> MessageView {
        MessageView {
            id: self.id@,
            method: self.method@,
            params: self.params.deep_view(),
        }
    }
}

impl RequestView {
    /// The method of herdr that serves the request.
    pub open spec fn method(self) -> Text {
        match self {
            RequestView::CurrentPane { .. } => "pane.current"@,
            RequestView::ListWorkspaces => "workspace.list"@,
            RequestView::ListTabs { .. } => "tab.list"@,
            RequestView::ExportLayout { .. } => "layout.export"@,
            RequestView::InspectPane { .. } => "pane.process_info"@,
            RequestView::Notify { .. } => "notification.show"@,
            RequestView::CloseWorkspace { .. } => "workspace.close"@,
            RequestView::CreateWorkspace { .. } => "workspace.create"@,
            RequestView::ApplyLayout { .. } => "layout.apply"@,
            RequestView::FocusTab { .. } => "tab.focus"@,
            RequestView::FocusWorkspace { .. } => "workspace.focus"@,
        }
    }

    /// The parameters of the request. Neither creating a workspace nor filling a
    /// tab moves the focus.
    pub open spec fn params(self) -> Seq<(Text, ValueView)> {
        match self {
            RequestView::CurrentPane { caller_pane_id: Some(id) } => seq![
                ("caller_pane_id"@, ValueView::Text(id)),
            ],
            RequestView::CurrentPane { caller_pane_id: None } => seq![],
            RequestView::ListWorkspaces => seq![],
            RequestView::ListTabs { workspace_id } => seq![
                ("workspace_id"@, ValueView::Text(workspace_id)),
            ],
            RequestView::ExportLayout { tab_id } => seq![("tab_id"@, ValueView::Text(tab_id))],
            RequestView::InspectPane { pane_id } => seq![("pane_id"@, ValueView::Text(pane_id))],
            RequestView::Notify { title } => seq![("title"@, ValueView::Text(title))],
            RequestView::CloseWorkspace { workspace_id } => seq![
                ("workspace_id"@, ValueView::Text(workspace_id)),
            ],
            RequestView::CreateWorkspace { label } => seq![
                ("label"@, ValueView::Text(label)),
                ("focus"@, ValueView::Flag(false)),
            ],
            RequestView::ApplyLayout { root, target, tab_label } => seq![
                ("root"@, ValueView::Layout(root)),
                match target {
                    TargetView::Tab(id) => ("tab_id"@, ValueView::Text(id)),
                    TargetView::Workspace(id) => ("workspace_id"@, ValueView::Text(id)),
                },
                (
                    "tab_label"@,
                    match tab_label {
                        Some(label) => ValueView::Text(label),
                        None => ValueView::Null,
                    },
                ),
                ("focus"@, ValueView::Flag(false)),
            ],
            RequestView::FocusTab { tab_id } => seq![("tab_id"@, ValueView::Text(tab_id))],
            RequestView::FocusWorkspace { workspace_id } => seq![
                ("workspace_id"@, ValueView::Text(workspace_id)),
            ],
        }
    }

    /// The request as it is sent.
    pub open spec fn message(self) -> MessageView {
        MessageView {
            id: "pen:"@ + self.method(),
            method: self.method(),
            params: self.params(),
        }
    }
}

impl Workspace {
    /// Another copy of what is known of the workspace.
    pub fn duplicate(&self) -> (result: Workspace)
        ensures
            result.deep_view() == self.deep_view(),
    {
        Workspace {
            id: self.id.clone(),
            active_tab_id: self.active_tab_id.clone(),
            label: self.label.clone(),
        }
    }
}

/// A parameter whose value is a text.
fn text_parameter(name: &str, text: String) -> (result: Parameter)
    ensures
        result.deep_view() == (name@, ValueView::Text(text@)),
{
    Parameter { name: name.to_owned(), value: Value::Text(text) }
}

/// The parameter that leaves the focus where it is.
fn keep_focus() -> (result: Parameter)
    ensures
        result.deep_view() == ("focus"@, ValueView::Flag(false)),
{
    Parameter { name: "focus".to_owned(), value: Value::Flag(false) }
}

impl Request {
    /// The method of herdr that serves the request.
    pub fn method(&self) -> (result: String)
        ensures
            result@ == self.deep_view().method(),
    {
        let name = match self {
            Request::CurrentPane { .. } => "pane.current",
            Request::ListWorkspaces => "workspace.list",
            Request::ListTabs { .. } => "tab.list",
            Request::ExportLayout { .. } => "layout.export",
            Request::InspectPane { .. } => "pane.process_info",
            Request::Notify { .. } => "notification.show",
            Request::CloseWorkspace { .. } => "workspace.close",
            Request::CreateWorkspace { .. } => "workspace.create",
            Request::ApplyLayout { .. } => "layout.apply",
            Request::FocusTab { .. } => "tab.focus",
            Request::FocusWorkspace { .. } => "workspace.focus",
        };
        name.to_owned()
    }

    /// The request as it is sent.
    pub fn into_message(self) -> (result: Message)
        ensures
            result.deep_view() == self.deep_view().message(),
    {
        let method = self.method();
        let id = joined("pen:", method.as_str());
        let mut params: Vec<Parameter> = Vec::new();
        match self {
            Request::CurrentPane { caller_pane_id: Some(pane_id) } => {
                params.push(text_parameter("caller_pane_id", pane_id));
            },
            Request::CurrentPane { caller_pane_id: None } => {},
            Request::ListWorkspaces => {},
            Request::ListTabs { workspace_id } => {
                params.push(text_parameter("workspace_id", workspace_id));
            },
            Request::ExportLayout { tab_id } => {
                params.push(text_parameter("tab_id", tab_id));
            },
            Request::InspectPane { pane_id } => {
                params.push(text_parameter("pane_id", pane_id));
            },
            Request::Notify { title } => {
                params.push(text_parameter("title", title));
            },
            Request::CloseWorkspace { workspace_id } => {
                params.push(text_parameter("workspace_id", workspace_id));
            },
            Request::CreateWorkspace { label } => {
                params.push(text_parameter("label", label));
                params.push(keep_focus());
            },
            Request::ApplyLayout { root, target, tab_label } => {
                params.push(Parameter { name: "root".to_owned(), value: Value::Layout(root) });
                match target {
                    Target::Tab(tab_id) => params.push(text_parameter("tab_id", tab_id)),
                    Target::Workspace(workspace_id) => params.push(
                        text_parameter("workspace_id", workspace_id),
                    ),
                }
                let value = match tab_label {
                    Some(label) => Value::Text(label),
                    None => Value::Null,
                };
                params.push(Parameter { name: "tab_label".to_owned(), value });
                params.push(keep_focus());
            },
            Request::FocusTab { tab_id } => {
                params.push(text_parameter("tab_id", tab_id));
            },
            Request::FocusWorkspace { workspace_id } => {
                params.push(text_parameter("workspace_id", workspace_id));
            },
        }
        assert(params.deep_view() =~= self.deep_view().params());
        Message { id, method, params }
    }
}

/// What herdr's answer to a request holds: a result, and what went wrong as JSON text.
/// A member that is missing or `null` is `None`.
#[derive(Debug, PartialEq, Eq)]
pub struct Envelope<V> {
    pub result: Option<V>,
    pub error: Option<String>,
}

/// The model of an `Envelope`. Its result is handed on as it is.
pub struct EnvelopeView<V> {
    pub result: Option<V>,
    pub error: Option<Text>,
}

impl<V> Envelope<V> {
    /// What the envelope stands for.
    pub open spec fn model(self) -> EnvelopeView<V> {
        EnvelopeView { result: self.result, error: self.error.deep_view() }
    }
}

/// The model of a result that is a value as it is, or a message.
pub open spec fn answer_of<V>(result: Result<V, String>) -> Result<V, Text> {
    match result {
        Ok(value) => Ok(value),
        Err(message) => Err(message@),
    }
}

/// The model of an envelope that was read, or of what kept it from being read.
pub open spec fn envelope_of<V>(read: Result<Envelope<V>, String>) -> Result<
    EnvelopeView<V>,
    Text,
> {
    match read {
        Ok(envelope) => Ok(envelope.model()),
        Err(message) => Err(message@),
    }
}

/// What the line that herdr sent back says to the caller of `method`, given what was
/// read in it: no line is no answer; an error comes before a result, and one of them
/// has to be there.
pub open spec fn reply_outcome<V>(
    method: Text,
    line: Text,
    read: Result<EnvelopeView<V>, Text>,
) -> Result<V, Text> {
    if line.len() == 0 {
        Err("herdr returned no response for "@ + method)
    } else {
        match read {
            Err(message) => Err(message),
            Ok(EnvelopeView { error: Some(error), .. }) => Err(
                "herdr "@ + method + " failed: "@ + error,
            ),
            Ok(EnvelopeView { error: None, result: Some(result) }) => Ok(result),
            Ok(EnvelopeView { error: None, result: None }) => Err(
                "herdr "@ + method + " response has no result"@,
            ),
        }
    }
}

/// What the line that herdr sent back says to the caller of `method`: its result, or
/// what went wrong.
pub fn read_reply<V>(method: &str, line: &str, read: Result<Envelope<V>, String>) -> (result: Result<
    V,
    String,
>)
    ensures
        answer_of(result) == reply_outcome(method@, line@, envelope_of(read)),
{
    if line.is_empty() {
        return Err(joined("herdr returned no response for ", method));
    }
    match read {
        Err(message) => Err(message),
        Ok(Envelope { error: Some(error), .. }) => {
            let opening = framed("herdr ", method, " failed: ");
            Err(joined(opening.as_str(), error.as_str()))
        },
        Ok(Envelope { error: None, result: Some(value) }) => Ok(value),
        Ok(Envelope { error: None, result: None }) => Err(
            framed("herdr ", method, " response has no result"),
        ),
    }
}

/// A layout is put in place of a tab or into a workspace, never both: herdr refuses
/// a request that names the two.
pub proof fn layout_has_one_target(
    root: LayoutView,
    target: TargetView,
    tab_label: Option<Text>,
    i: int,
    j: int,
)
    requires
        0 <= i < 4,
        0 <= j < 4,
    ensures
        ({
            let params = (RequestView::ApplyLayout { root, target, tab_label }).params();
            &&& params.len() == 4
            &&& !(params[i].0 == "tab_id"@ && params[j].0 == "workspace_id"@)
        }),
{
    reveal_strlit("tab_id");
    reveal_strlit("workspace_id");
    reveal_strlit("root");
    reveal_strlit("tab_label");
    reveal_strlit("focus");
    assert("tab_id"@.len() == 6 && "workspace_id"@.len() == 12 && "root"@.len() == 4);
    assert("tab_label"@.len() == 9 && "focus"@.len() == 5);
}

/// Neither creating a workspace nor filling a tab moves the focus.
pub proof fn building_leaves_the_focus(request: RequestView)
    requires
        request is CreateWorkspace || request is ApplyLayout,
    ensures
        request.params().contains(("focus"@, ValueView::Flag(false))),
        !request.params().contains(("focus"@, ValueView::Flag(true))),
{
    let params = request.params();
    assert(params.last() == ("focus"@, ValueView::Flag(false)));
    if params.contains(("focus"@, ValueView::Flag(true))) {
        let i = choose|i: int|
            0 <= i < params.len() && params[i] == ("focus"@, ValueView::Flag(true));
        assert(params[i].1 == ValueView::Flag(true));
    }
}

/// The value of the first parameter with the given name.
pub open spec fn parameter(params: Seq<(Text, ValueView)>, name: Text) -> Option<ValueView>
    decreases params.len(),
{
    if params.len() == 0 {
        None
    } else if params[0].0 == name {
        Some(params[0].1)
    } else {
        parameter(params.drop_first(), name)
    }
}

/// A request to build a tab carries the whole layout, splits included, under `root`; the
/// tab or the workspace that it goes to; and the label of the tab, or `null` where it
/// has none. It carries nothing else, but that the focus stays.
pub proof fn layout_is_sent_whole(root: LayoutView, target: TargetView, tab_label: Option<Text>)
    ensures
        ({
            let message = (RequestView::ApplyLayout { root, target, tab_label }).message();
            let params = message.params;
            &&& message.method == "layout.apply"@
            &&& params.len() == 4
            &&& params.contains(("root"@, ValueView::Layout(root)))
            &&& parameter(params, "root"@) == Some(ValueView::Layout(root))
            &&& parameter(params, "tab_id"@) == match target {
                TargetView::Tab(id) => Some(ValueView::Text(id)),
                TargetView::Workspace(_) => None,
            }
            &&& parameter(params, "workspace_id"@) == match target {
                TargetView::Tab(_) => None,
                TargetView::Workspace(id) => Some(ValueView::Text(id)),
            }
            &&& parameter(params, "tab_label"@) == match tab_label {
                Some(label) => Some(ValueView::Text(label)),
                None => Some(ValueView::Null),
            }
            &&& parameter(params, "focus"@) == Some(ValueView::Flag(false))
        }),
{
    reveal_with_fuel(parameter, 5);
    reveal_strlit("tab_id");
    reveal_strlit("workspace_id");
    reveal_strlit("root");
    reveal_strlit("tab_label");
    reveal_strlit("focus");
    assert("tab_id"@.len() == 6 && "workspace_id"@.len() == 12 && "root"@.len() == 4);
    assert("tab_label"@.len() == 9 && "focus"@.len() == 5);
    let p = (RequestView::ApplyLayout { root, target, tab_label }).message().params;
    assert(p[0] == ("root"@, ValueView::Layout(root)));
    assert(p.drop_first()[0] == p[1]);
    assert(p.drop_first().drop_first()[0] == p[2]);
    assert(p.drop_first().drop_first().drop_first()[0] == p[3]);
    assert(p.drop_first().drop_first().drop_first().drop_first().len() == 0);
}

/// A request other than for building says of what it asks by one text under one name,
/// or says nothing.
pub proof fn request_names_what_it_asks_for(request: RequestView)
    requires
        !(request is ApplyLayout),
        !(request is CreateWorkspace),
    ensures
        ({
            let subject: Option<(Text, Text)> = match request {
                RequestView::CurrentPane { caller_pane_id: Some(id) } => Some(
                    ("caller_pane_id"@, id),
                ),
                RequestView::ListTabs { workspace_id } => Some(("workspace_id"@, workspace_id)),
                RequestView::ExportLayout { tab_id } => Some(("tab_id"@, tab_id)),
                RequestView::InspectPane { pane_id } => Some(("pane_id"@, pane_id)),
                RequestView::Notify { title } => Some(("title"@, title)),
                RequestView::CloseWorkspace { workspace_id } => Some(
                    ("workspace_id"@, workspace_id),
                ),
                RequestView::FocusTab { tab_id } => Some(("tab_id"@, tab_id)),
                RequestView::FocusWorkspace { workspace_id } => Some(
                    ("workspace_id"@, workspace_id),
                ),
                _ => None,
            };
            let params = request.message().params;
            match subject {
                Some((name, text)) => params.len() == 1 && parameter(params, name) == Some(
                    ValueView::Text(text),
                ),
                None => params.len() == 0,
            }
        }),
{
}

/// A request to create a workspace carries its label and that the focus stays.
pub proof fn creation_carries_the_label(label: Text)
    ensures
        ({
            let params = (RequestView::CreateWorkspace { label }).message().params;
            &&& params.len() == 2
            &&& parameter(params, "label"@) == Some(ValueView::Text(label))
            &&& parameter(params, "focus"@) == Some(ValueView::Flag(false))
        }),
{
    reveal_with_fuel(parameter, 3);
    reveal_strlit("label");
    reveal_strlit("focus");
    assert("label"@[0] == 'l' && "focus"@[0] == 'f');
    let p = (RequestView::CreateWorkspace { label }).message().params;
    assert(p.drop_first()[0] == p[1]);
}

/// A request goes to the method of its kind, whatever else it says, and its id names
/// that method.
pub proof fn request_goes_to_its_method(request: RequestView)
    ensures
        request.message().id == "pen:"@ + request.message().method,
        request.message().method == match request {
            RequestView::CurrentPane { .. } => "pane.current"@,
            RequestView::ListWorkspaces => "workspace.list"@,
            RequestView::ListTabs { .. } => "tab.list"@,
            RequestView::ExportLayout { .. } => "layout.export"@,
            RequestView::InspectPane { .. } => "pane.process_info"@,
            RequestView::Notify { .. } => "notification.show"@,
            RequestView::CloseWorkspace { .. } => "workspace.close"@,
            RequestView::CreateWorkspace { .. } => "workspace.create"@,
            RequestView::ApplyLayout { .. } => "layout.apply"@,
            RequestView::FocusTab { .. } => "tab.focus"@,
            RequestView::FocusWorkspace { .. } => "workspace.focus"@,
        },
{
}

/// A caller gets the result exactly where a line came back, could be read, has a result
/// and tells of no error; and then the result as it was sent.
pub proof fn result_comes_only_without_error<V>(
    method: Text,
    line: Text,
    read: Result<EnvelopeView<V>, Text>,
    value: V,
)
    ensures
        reply_outcome(method, line, read) == Ok::<V, Text>(value) <==> line.len() > 0
            && read is Ok && read->Ok_0.error is None && read->Ok_0.result == Some(value),
{
}

/// What went wrong is told with the method and, where herdr says it, with herdr's own
/// words; a line that cannot be read is told as it was refused.
pub proof fn failure_is_told<V>(
    method: Text,
    line: Text,
    read: Result<EnvelopeView<V>, Text>,
    message: Text,
)
    requires
        reply_outcome(method, line, read) == Err::<V, Text>(message),
    ensures
        line.len() == 0 ==> message == "herdr returned no response for "@ + method,
        line.len() > 0 && read is Err ==> message == read->Err_0,
        line.len() > 0 && read is Ok && read->Ok_0.error is Some ==> message == "herdr "@ + method
            + " failed: "@ + read->Ok_0.error->0,
        line.len() > 0 && read is Ok && read->Ok_0.error is None ==> message == "herdr "@ + method
            + " response has no result"@,
{
}

} // verus!
