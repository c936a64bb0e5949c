//! Models leave nothing out: values with the same model agree in all that they hold.

use crate::closing::Guard;
use crate::definition::{Definition, LayoutNode, StoredDefinition};
use crate::exchange::{Action, Event, Note};
use crate::picker::Pick;
use crate::process::{Foreground, ProcessInfo};
use crate::protocol::{answer_of, envelope_of, Envelope, EnvelopeView, Message, Reply, Request, TabRow, Target, Value, Workspace};
use crate::session::{Context, Turn};
use crate::text::Text;
use crate::text_map::TextMap;
use vstd::prelude::*;

verus! {

/// Layouts with the same model have the same shape, and in each pane the same directory,
/// command, environment, label and id.
pub proof fn layout_model_is_complete(a: LayoutNode, b: LayoutNode)
    requires
        a.tree() == b.tree(),
    ensures
        match (a, b) {
            (
                LayoutNode::Pane { cwd: c1, command: m1, env: e1, label: l1, pane_id: p1 },
                LayoutNode::Pane { cwd: c2, command: m2, env: e2, label: l2, pane_id: p2 },
            ) => c1.deep_view() == c2.deep_view() && m1.deep_view() == m2.deep_view()
                && e1.deep_view() == e2.deep_view() && l1.deep_view() == l2.deep_view()
                && p1.deep_view() == p2.deep_view(),
            (
                LayoutNode::Split { direction: d1, ratio: r1, first: f1, second: s1 },
                LayoutNode::Split { direction: d2, ratio: r2, first: f2, second: s2 },
            ) => d1@ == d2@ && r1 == r2 && f1.tree() == f2.tree() && s1.tree() == s2.tree(),
            _ => false,
        },
{
}

/// Definitions with the same model have the same label and the same tabs, each with the
/// same label, mark and layout.
pub proof fn definition_model_is_complete(a: Definition, b: Definition, i: int)
    requires
        a.deep_view() == b.deep_view(),
        0 <= i < a.tabs@.len(),
    ensures
        a.label@ == b.label@,
        a.tabs@.len() == b.tabs@.len(),
        a.tabs@[i].label.deep_view() == b.tabs@[i].label.deep_view(),
        a.tabs@[i].active == b.tabs@[i].active,
        a.tabs@[i].root.tree() == b.tabs@[i].root.tree(),
{
    assert(a.deep_view().tabs.len() == a.tabs@.len());
    assert(b.deep_view().tabs.len() == b.tabs@.len());
    assert(a.deep_view().tabs[i] == a.tabs@[i].deep_view());
    assert(b.deep_view().tabs[i] == b.tabs@[i].deep_view());
}

/// Files with the same model are of the same format and hold the same.
pub proof fn stored_model_is_complete(a: StoredDefinition, b: StoredDefinition)
    requires
        a.deep_view() == b.deep_view(),
    ensures
        match (a, b) {
            (StoredDefinition::Tabs(x), StoredDefinition::Tabs(y)) => x.deep_view()
                == y.deep_view(),
            (
                StoredDefinition::Legacy { label: l1, root: r1 },
                StoredDefinition::Legacy { label: l2, root: r2 },
            ) => l1@ == l2@ && r1.tree() == r2.tree(),
            _ => false,
        },
{
}

/// Workspaces with the same model agree in id, active tab and label; tabs in id and
/// label.
pub proof fn workspace_model_is_complete(a: Workspace, b: Workspace, x: TabRow, y: TabRow)
    requires
        a.deep_view() == b.deep_view(),
        x.deep_view() == y.deep_view(),
    ensures
        a.id@ == b.id@,
        a.active_tab_id@ == b.active_tab_id@,
        a.label@ == b.label@,
        x.tab_id@ == y.tab_id@,
        x.label@ == y.label@,
{
}

/// Reports on processes with the same model agree in shell, leader and every process with
/// its arguments.
pub proof fn process_model_is_complete(a: ProcessInfo, b: ProcessInfo, i: int)
    requires
        a.deep_view() == b.deep_view(),
        0 <= i < a.foreground_processes@.len(),
    ensures
        a.shell_pid == b.shell_pid,
        a.foreground_process_group_id == b.foreground_process_group_id,
        a.foreground_processes@.len() == b.foreground_processes@.len(),
        a.foreground_processes@[i].pid == b.foreground_processes@[i].pid,
        a.foreground_processes@[i].argv.deep_view() == b.foreground_processes@[i].argv.deep_view(),
{
    let x = a.deep_view().foreground_processes;
    let y = b.deep_view().foreground_processes;
    assert(x.len() == y.len());
    assert(x[i] == a.foreground_processes@[i].deep_view());
    assert(y[i] == b.foreground_processes@[i].deep_view());
}

/// Requests with the same model are of the same kind and ask for the same.
pub proof fn request_model_is_complete(a: Request, b: Request)
    requires
        a.deep_view() == b.deep_view(),
    ensures
        match (a, b) {
            (
                Request::CurrentPane { caller_pane_id: x },
                Request::CurrentPane { caller_pane_id: y },
            ) => x.deep_view() == y.deep_view(),
            (Request::ListWorkspaces, Request::ListWorkspaces) => true,
            (Request::ListTabs { workspace_id: x }, Request::ListTabs { workspace_id: y }) => x@
                == y@,
            (Request::ExportLayout { tab_id: x }, Request::ExportLayout { tab_id: y }) => x@ == y@,
            (Request::InspectPane { pane_id: x }, Request::InspectPane { pane_id: y }) => x@ == y@,
            (Request::Notify { title: x }, Request::Notify { title: y }) => x@ == y@,
            (
                Request::CloseWorkspace { workspace_id: x },
                Request::CloseWorkspace { workspace_id: y },
            ) => x@ == y@,
            (Request::CreateWorkspace { label: x }, Request::CreateWorkspace { label: y }) => x@
                == y@,
            (
                Request::ApplyLayout { root: r1, target: t1, tab_label: l1 },
                Request::ApplyLayout { root: r2, target: t2, tab_label: l2 },
            ) => r1.tree() == r2.tree() && l1.deep_view() == l2.deep_view() && match (t1, t2) {
                (Target::Tab(x), Target::Tab(y)) => x@ == y@,
                (Target::Workspace(x), Target::Workspace(y)) => x@ == y@,
                _ => false,
            },
            (Request::FocusTab { tab_id: x }, Request::FocusTab { tab_id: y }) => x@ == y@,
            (
                Request::FocusWorkspace { workspace_id: x },
                Request::FocusWorkspace { workspace_id: y },
            ) => x@ == y@,
            _ => false,
        },
{
}

/// Messages with the same model have the same id, method and parameters.
pub proof fn message_model_is_complete(a: Message, b: Message, i: int)
    requires
        a.deep_view() == b.deep_view(),
        0 <= i < a.params@.len(),
    ensures
        a.id@ == b.id@,
        a.method@ == b.method@,
        a.params@.len() == b.params@.len(),
        a.params@[i].name@ == b.params@[i].name@,
        match (a.params@[i].value, b.params@[i].value) {
            (Value::Text(x), Value::Text(y)) => x@ == y@,
            (Value::Flag(x), Value::Flag(y)) => x == y,
            (Value::Null, Value::Null) => true,
            (Value::Layout(x), Value::Layout(y)) => x.tree() == y.tree(),
            _ => false,
        },
{
    let x = a.deep_view().params;
    let y = b.deep_view().params;
    assert(x.len() == y.len());
    assert(x[i] == a.params@[i].deep_view());
    assert(y[i] == b.params@[i].deep_view());
}

/// Replies with the same model are of the same kind and say the same.
pub proof fn reply_model_is_complete(a: Reply, b: Reply)
    requires
        a.deep_view() == b.deep_view(),
    ensures
        match (a, b) {
            (
                Reply::CurrentPane { workspace_id: x },
                Reply::CurrentPane { workspace_id: y },
            ) => x@ == y@,
            (Reply::Workspaces(x), Reply::Workspaces(y)) => x.deep_view() == y.deep_view(),
            (Reply::Tabs(x), Reply::Tabs(y)) => x.deep_view() == y.deep_view(),
            (Reply::Layout(x), Reply::Layout(y)) => x.tree() == y.tree(),
            (Reply::Processes(x), Reply::Processes(y)) => x.deep_view() == y.deep_view(),
            (
                Reply::Created { workspace_id: w1, tab_id: t1 },
                Reply::Created { workspace_id: w2, tab_id: t2 },
            ) => w1@ == w2@ && t1@ == t2@,
            (Reply::Applied { tab_id: x }, Reply::Applied { tab_id: y }) => x@ == y@,
            (Reply::Done, Reply::Done) => true,
            _ => false,
        },
{
}

/// Actions with the same model are of the same kind and ask for the same.
pub proof fn action_model_is_complete(a: Action, b: Action)
    requires
        a.deep_view() == b.deep_view(),
    ensures
        match (a, b) {
            (Action::Call(x), Action::Call(y)) => x.deep_view() == y.deep_view(),
            (Action::LoadDefinitions, Action::LoadDefinitions) => true,
            (
                Action::SaveDefinition { file_name: f1, definition: d1 },
                Action::SaveDefinition { file_name: f2, definition: d2 },
            ) => f1@ == f2@ && d1.deep_view() == d2.deep_view(),
            (Action::Ask(x), Action::Ask(y)) => x@ == y@,
            (Action::Pick(x), Action::Pick(y)) => x@ == y@,
            (Action::Finish(Ok(x)), Action::Finish(Ok(y))) => x@ == y@,
            (Action::Finish(Err(x)), Action::Finish(Err(y))) => x@ == y@,
            _ => false,
        },
{
}

/// Events with the same model are of the same kind and report the same.
pub proof fn event_model_is_complete(a: Event, b: Event)
    requires
        a.deep_view() == b.deep_view(),
    ensures
        match (a, b) {
            (Event::Reply(x), Event::Reply(y)) => x.deep_view() == y.deep_view(),
            (Event::Definitions(x), Event::Definitions(y)) => x.deep_view() == y.deep_view(),
            (Event::Saved, Event::Saved) => true,
            (Event::Answer(x), Event::Answer(y)) => x@ == y@,
            (Event::Picked(x), Event::Picked(y)) => x.deep_view() == y.deep_view(),
            (Event::Failed(x), Event::Failed(y)) => x@ == y@,
            _ => false,
        },
{
}

/// Notes with the same model go to the same place and say the same.
pub proof fn note_model_is_complete(a: Note, b: Note)
    requires
        a.deep_view() == b.deep_view(),
    ensures
        match (a, b) {
            (Note::Line(x), Note::Line(y)) => x@ == y@,
            (Note::Warning(x), Note::Warning(y)) => x@ == y@,
            _ => false,
        },
{
}

/// A map of texts holds the keys of its model and no others, each with the value's model.
pub proof fn map_model_is_complete(map: TextMap<String>, key: Text)
    ensures
        map.deep_view().contains_key(key) <==> map@.contains_key(key),
        map@.contains_key(key) ==> map.deep_view()[key] == map@[key]@,
{
}

/// What a command is started with is taken into account: the version, the process and
/// the pane.
pub proof fn context_model_is_complete(a: Context, b: Context)
    requires
        a.deep_view() == b.deep_view(),
    ensures
        a.version@ == b.version@,
        a.self_pid == b.self_pid,
        a.caller_pane_id.deep_view() == b.caller_pane_id.deep_view(),
{
}

/// Turns with the same model tell the user the same and ask for the same.
pub proof fn turn_model_is_complete(a: Turn, b: Turn)
    requires
        a.deep_view() == b.deep_view(),
    ensures
        a.session.deep_view() == b.session.deep_view(),
        a.note.deep_view() == b.note.deep_view(),
        a.action.deep_view() == b.action.deep_view(),
{
}

/// Envelopes with the same model have the same result and the same error, and an answer
/// is a result or a message, never both.
pub proof fn envelope_model_is_complete<V>(
    a: Envelope<V>,
    b: Envelope<V>,
    x: Result<V, String>,
    y: Result<V, String>,
)
    ensures
        a.model() == b.model() ==> a.result == b.result && a.error.deep_view()
            == b.error.deep_view(),
        envelope_of(Ok::<Envelope<V>, String>(a)) == Ok::<EnvelopeView<V>, Text>(a.model()),
        answer_of(x) == answer_of(y) ==> match (x, y) {
            (Ok(v), Ok(w)) => v == w,
            (Err(m), Err(n)) => m@ == n@,
            _ => false,
        },
{
}

/// What has to happen before a workspace is closed is told apart by its model, with the
/// question or the refusal in words.
pub proof fn guard_model_is_complete(a: Guard, b: Guard)
    requires
        a.deep_view() == b.deep_view(),
    ensures
        match (a, b) {
            (Guard::Snapshot, Guard::Snapshot) => true,
            (Guard::Ask(x), Guard::Ask(y)) => x@ == y@,
            (Guard::Save, Guard::Save) => true,
            (Guard::Close, Guard::Close) => true,
            (Guard::Refuse(x), Guard::Refuse(y)) => x@ == y@,
            _ => false,
        },
{
}

/// Choices with the same model ask for the same to be done with the same.
pub proof fn pick_model_is_complete(a: Pick, b: Pick)
    requires
        a.deep_view() == b.deep_view(),
    ensures
        match (a, b) {
            (Pick::Leave, Pick::Leave) => true,
            (
                Pick::Close { workspace: w1, again: a1 },
                Pick::Close { workspace: w2, again: a2 },
            ) => w1.deep_view() == w2.deep_view() && a1 == a2,
            (
                Pick::Restore { definition: d1, again: a1 },
                Pick::Restore { definition: d2, again: a2 },
            ) => d1.deep_view() == d2.deep_view() && a1 == a2,
            (Pick::Missing(x), Pick::Missing(y)) => x@ == y@,
            _ => false,
        },
{
}

/// What runs in the foreground is told apart by its model.
pub proof fn foreground_model_is_complete(a: Foreground, b: Foreground)
    requires
        a.deep_view() == b.deep_view(),
    ensures
        match (a, b) {
            (Foreground::Idle, Foreground::Idle) => true,
            (Foreground::Command(x), Foreground::Command(y)) => x.deep_view() == y.deep_view(),
            (Foreground::Unknown, Foreground::Unknown) => true,
            _ => false,
        },
{
}

} // verus!
