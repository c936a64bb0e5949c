//! What holds of every command from its beginning to its end.

use crate::closing::{chosen, closed_only_once_cleared, differs_prompt, unsaved_prompt, Choice, ClosingStageView, ClosingStepView, ClosingView};
use crate::definition::{by_label, labels_are_finite, saving_twice_changes_nothing, stored_definition_is_found, stored_label_is_known, DefinitionView, LayoutView, StoredView};
use crate::exchange::{ActionView, EventView, NoteView};
use crate::files::file_stem;
use crate::picker::{is_running, listed, listing, picked, rows, rows_come_in_order, running};
use crate::process::ProcessInfoView;
use crate::protocol::{ReplyView, RequestView, TabRowView, TargetView, WorkspaceView};
use crate::restore::{active_tab, active_tab_is_the_marked_one, append_requests, apply_request, first_tab_stands_in, focus_replies, focus_requests, restore_rebuilds_every_tab, RestoreStepView, RestoreView};
use crate::session::{begin, with_id, ContextView, SessionView, StateView, TurnView};
use crate::snapshot::{all_known, snapshot_takes_down_every_tab, tabs_replies, tabs_requests, tabs_taken_down, SnapshotStepView, SnapshotView};
use crate::text::Text;
use crate::text_map::{ascending, in_order};
use vstd::prelude::*;

verus! {

impl SnapshotView {
    /// Whether the snapshot is on the way to a definition with tabs.
    pub open spec fn is_sound(self) -> bool {
        self.tabs is Some ==> self.tabs->0.len() > 0
    }
}

impl DefinitionView {
    /// Whether the definition can be restored: it has tabs, and no word on which panes
    /// are running.
    pub open spec fn is_restorable(self) -> bool {
        self.names_no_pane() && self.tabs.len() > 0
    }
}

impl ClosingView {
    /// Whether all that is known of the workspace is on the way to a definition with
    /// tabs.
    pub open spec fn is_sound(self) -> bool {
        match self.stage {
            ClosingStageView::Snapshot { snapshot, .. } => snapshot.is_sound(),
            ClosingStageView::Ask { live, .. } => live is Some ==> live->0.tabs.len() > 0,
            _ => true,
        }
    }
}

impl SessionView {
    /// Whether all that is known of a workspace is on the way to a definition with
    /// tabs, and a workspace takes the focus only where the picker does not come back.
    pub open spec fn is_sound(self) -> bool {
        match self.state {
            StateView::Snapshot(_, snapshot) => snapshot.is_sound(),
            StateView::Close(closing, _) => closing.is_sound(),
            StateView::Restore(_, restore, again) => restore.take_focus == !again,
            _ => true,
        }
    }
}

proof fn snapshot_stays_sound(s: SnapshotView, reply: ReplyView)
    requires
        s.is_sound(),
    ensures
        match s.step(reply) {
            SnapshotStepView::Ask(next, _) => next.is_sound(),
            SnapshotStepView::Done(definition) => definition.tabs.len() > 0
                && definition.saved().is_restorable(),
            SnapshotStepView::Failed(_) => true,
        },
{
    if let SnapshotStepView::Done(definition) = s.step(reply) {
        saving_twice_changes_nothing(definition);
    }
}

proof fn closing_stays_sound(closing: ClosingView, event: EventView)
    requires
        closing.is_sound(),
    ensures
        match closing.step(event) {
            ClosingStepView::Act(next, action) => next.is_sound() && match action {
                ActionView::SaveDefinition { file_name, definition } => definition.is_restorable()
                    && file_name == file_stem(definition.label) + ".toml"@,
                _ => true,
            },
            _ => true,
        },
{
    match (closing.stage, event) {
        (ClosingStageView::Snapshot { snapshot, .. }, EventView::Reply(reply)) => {
            snapshot_stays_sound(snapshot, reply);
        },
        (ClosingStageView::Ask { live: Some(live), .. }, EventView::Answer(_)) => {
            saving_twice_changes_nothing(live);
        },
        _ => {},
    }
}

/// A command begins sound.
pub proof fn command_begins_sound(args: Seq<Text>, context: ContextView)
    ensures
        begin(args, context).session.is_sound(),
{
}

/// A command stays sound, and whatever it writes can be restored and stands in the
/// file of its own label.
pub proof fn command_stays_sound(session: SessionView, event: EventView)
    requires
        session.is_sound(),
    ensures
        session.step(event).session.is_sound(),
        session.step(event).action matches ActionView::SaveDefinition { file_name, definition }
            ==> definition.is_restorable() && file_name == file_stem(definition.label) + ".toml"@,
{
    match (session.state, event) {
        (StateView::Snapshot(_, snapshot), EventView::Reply(reply)) => {
            snapshot_stays_sound(snapshot, reply);
        },
        (StateView::Close(closing, _), event) => {
            closing_stays_sound(closing, event);
        },
        _ => {},
    }
}

/// `pen save` writes a definition only once the workspace is taken down completely,
/// and then what is saved of that.
pub proof fn save_writes_only_what_is_complete(
    session: SessionView,
    event: EventView,
    name: Text,
    definition: DefinitionView,
)
    requires
        session.step(event).action == (ActionView::SaveDefinition { file_name: name, definition }),
        !(session.state is Close),
    ensures
        session.state matches StateView::Snapshot(_, snapshot) && event matches EventView::Reply(
            reply,
        ) && snapshot.step(reply) matches SnapshotStepView::Done(live) && definition == live.saved(),
{
}

/// herdr is told to close a workspace only in the course of closing it, once that is
/// cleared.
pub proof fn command_closes_only_once_cleared(
    session: SessionView,
    kept: Option<DefinitionView>,
    event: EventView,
    workspace_id: Text,
)
    requires
        session.state matches StateView::Close(closing, _) ==> closing.follows(kept) && (
        closing.stage is Look ==> (event matches EventView::Definitions(stored) ==> kept
            == by_label(stored).get(closing.workspace.label))),
        session.step(event).action == ActionView::Call(
            RequestView::CloseWorkspace { workspace_id },
        ),
    ensures
        session.state matches StateView::Close(closing, _) && closing.cleared(kept, event)
            && workspace_id == closing.workspace.id,
{
    if let StateView::Close(closing, _) = session.state {
        closed_only_once_cleared(closing, kept, event, workspace_id);
    }
}

/// A failure ends the command with its message, to which a restoration adds what it
/// leaves behind. The one exception is the message about a saved workspace.
pub proof fn failure_ends_the_command(session: SessionView, message: Text)
    requires
        !(session.state is Notify),
    ensures
        session.step(EventView::Failed(message)) == session.finish(
            Err(
                match session.state {
                    StateView::Restore(_, restore, _) => restore.failure(message),
                    _ => message,
                },
            ),
        ),
{
}

/// A workspace that is saved counts as saved though the message about it cannot be
/// shown; the user is warned.
pub proof fn failed_message_is_only_a_warning(session: SessionView, label: Text, message: Text)
    requires
        session.state == StateView::Notify(label),
    ensures
        session.step(EventView::Failed(message)).action == ActionView::Finish(
            Ok("saved "@ + label + "\n"@),
        ),
        session.step(EventView::Failed(message)).note == Some(
            NoteView::Warning("pen: notification failed: "@ + message),
        ),
{
}

/// A pane of which it is not known what runs in it ends the command with an error.
pub proof fn unknown_command_ends_the_save(
    session: SessionView,
    label: Text,
    snapshot: SnapshotView,
    info: ProcessInfoView,
)
    requires
        session.state == StateView::Snapshot(label, snapshot),
        snapshot.tabs is Some,
        snapshot.root is Some,
        info.foreground(snapshot.self_pid) is Unknown,
    ensures
        session.step(EventView::Reply(ReplyView::Processes(info))).action matches ActionView::Finish(
            Err(_),
        ),
{
}

/// A command that has ended does nothing any more.
pub proof fn ended_command_rests(session: SessionView, event: EventView)
    requires
        session.state is Finished,
    ensures
        session.step(event).session.state is Finished,
        session.step(event).action is Finish,
{
}

/// A command that has not ended asks for something, and one that has ended does not.
pub proof fn command_ends_with_its_result(session: SessionView, event: EventView)
    ensures
        session.step(event).session.state is Finished <==> session.step(event).action is Finish,
{
}

/// What Space began ends in the picker, unless it fails.
pub proof fn space_comes_back_to_the_picker(session: SessionView, event: EventView)
    requires
        session.state matches StateView::Close(_, again) ==> again,
        session.state matches StateView::Restore(_, _, again) ==> again,
        session.state is Close || session.state is Restore,
    ensures
        match session.step(event).session.state {
            StateView::Close(_, again) => again,
            StateView::Restore(_, _, again) => again,
            StateView::Load => session.step(event).action is LoadDefinitions,
            StateView::Finished => session.step(event).action matches ActionView::Finish(Err(_)),
            _ => false,
        },
{
}

/// What Enter began ends the command.
pub proof fn enter_leaves_the_picker(session: SessionView, event: EventView)
    requires
        session.state matches StateView::Close(_, again) ==> !again,
        session.state matches StateView::Restore(_, _, again) ==> !again,
        session.state is Close || session.state is Restore,
    ensures
        match session.step(event).session.state {
            StateView::Close(_, again) => !again,
            StateView::Restore(_, _, again) => !again,
            StateView::Finished => true,
            _ => false,
        },
{
}

/// The key decides whether the picker comes back: Space brings it back, Enter does
/// not, and any other key leaves it at once without doing anything.
pub proof fn key_decides_about_the_picker(
    session: SessionView,
    definitions: Map<Text, DefinitionView>,
    workspaces: Seq<WorkspaceView>,
    output: Text,
    key: Text,
    label: Text,
)
    requires
        session.state == StateView::Choose(definitions, workspaces),
        picked(output) == Some((key, label)),
    ensures
        ({
            let turn = session.step(EventView::Picked(Some(output)));
            &&& key != "space"@ && key != "enter"@ ==> turn == session.finish(Ok(Seq::empty()))
            &&& match turn.session.state {
                StateView::Close(closing, again) => (again <==> key == "space"@) && Some(
                    closing.workspace,
                ) == running(workspaces, label),
                StateView::Restore(_, _, again) => (again <==> key == "space"@) && running(
                    workspaces,
                    label,
                ) is None,
                state => state is Finished,
            }
        }),
{
}

/// Only a restoration begun with Enter brings its workspace to the front.
pub proof fn space_leaves_the_focus(session: SessionView, event: EventView, workspace_id: Text)
    requires
        session.is_sound(),
        session.step(event).action == ActionView::Call(
            RequestView::FocusWorkspace { workspace_id },
        ),
    ensures
        session.state matches StateView::Restore(_, _, again) && !again,
{
}

/// Where a command stands after some events.
pub open spec fn after_events(turn: TurnView, events: Seq<EventView>) -> TurnView
    decreases events.len(),
{
    if events.len() == 0 {
        turn
    } else {
        after_events(turn.session.step(events[0]), events.drop_first())
    }
}

/// The actions that the events come of.
pub open spec fn performed(turn: TurnView, events: Seq<EventView>) -> Seq<ActionView>
    decreases events.len(),
{
    if events.len() == 0 {
        seq![]
    } else {
        seq![turn.action] + performed(turn.session.step(events[0]), events.drop_first())
    }
}

/// Replies as events.
pub open spec fn as_events(replies: Seq<ReplyView>) -> Seq<EventView> {
    replies.map_values(|reply: ReplyView| EventView::Reply(reply))
}

/// Requests as actions.
pub open spec fn as_actions(requests: Seq<RequestView>) -> Seq<ActionView> {
    requests.map_values(|request: RequestView| ActionView::Call(request))
}

proof fn events_in_parts(turn: TurnView, a: Seq<EventView>, b: Seq<EventView>)
    ensures
        after_events(turn, a + b) == after_events(after_events(turn, a), b),
        performed(turn, a + b) == performed(turn, a) + performed(after_events(turn, a), b),
    decreases a.len(),
{
    if a.len() == 0 {
        assert(a + b =~= b);
        assert(performed(turn, a + b) =~= performed(turn, a) + performed(turn, b));
    } else {
        assert((a + b).drop_first() =~= a.drop_first() + b);
        events_in_parts(turn.session.step(a[0]), a.drop_first(), b);
        assert(performed(turn, a + b) =~= performed(turn, a) + performed(
            after_events(turn, a),
            b,
        ));
    }
}

proof fn one_event(turn: TurnView, a: EventView)
    ensures
        after_events(turn, seq![a]) == turn.session.step(a),
        performed(turn, seq![a]) == seq![turn.action],
{
    reveal_with_fuel(after_events, 2);
    reveal_with_fuel(performed, 2);
    assert(seq![a].drop_first() =~= seq![]);
    assert(performed(turn, seq![a]) =~= seq![turn.action]);
}

proof fn two_events(turn: TurnView, a: EventView, b: EventView)
    ensures
        after_events(turn, seq![a, b]) == turn.session.step(a).session.step(b),
        performed(turn, seq![a, b]) == seq![turn.action, turn.session.step(a).action],
{
    assert(seq![a, b].drop_first() =~= seq![b]);
    one_event(turn.session.step(a), b);
    assert(performed(turn, seq![a, b]) =~= seq![turn.action, turn.session.step(a).action]);
}

impl SessionView {
    /// Where `pen save` stands when its snapshot stands at `step`.
    pub open spec fn saving(self, label: Text, step: SnapshotStepView) -> TurnView {
        match step {
            SnapshotStepView::Ask(snapshot, request) => self.act(
                StateView::Snapshot(label, snapshot),
                ActionView::Call(request),
            ),
            SnapshotStepView::Done(definition) => self.act(
                StateView::Write(label),
                ActionView::SaveDefinition {
                    file_name: file_stem(definition.label) + ".toml"@,
                    definition: definition.saved(),
                },
            ),
            SnapshotStepView::Failed(message) => self.finish(Err(message)),
        }
    }
}

/// `pen save` hands the replies on to its snapshot.
proof fn save_follows_snapshot(
    session: SessionView,
    label: Text,
    step: SnapshotStepView,
    replies: Seq<ReplyView>,
)
    requires
        crate::snapshot::answered(step, replies).len() == replies.len(),
    ensures
        ({
            let turn = session.saving(label, step);
            &&& after_events(turn, as_events(replies)) == session.saving(
                label,
                crate::snapshot::after_replies(step, replies),
            )
            &&& performed(turn, as_events(replies)) == as_actions(
                crate::snapshot::answered(step, replies),
            )
        }),
    decreases replies.len(),
{
    let turn = session.saving(label, step);
    let events = as_events(replies);
    if replies.len() > 0 {
        if let SnapshotStepView::Ask(snapshot, request) = step {
            let next = snapshot.step(replies[0]);
            let rest = replies.drop_first();
            assert(crate::snapshot::answered(step, replies) == seq![request]
                + crate::snapshot::answered(next, rest));
            save_follows_snapshot(session, label, next, rest);
            assert(events[0] == EventView::Reply(replies[0]));
            assert(events.drop_first() =~= as_events(rest));
            assert(turn.session.step(events[0]) == session.saving(label, next));
            assert(performed(turn, events) =~= as_actions(
                crate::snapshot::answered(step, replies),
            ));
        }
    } else {
        assert(performed(turn, events) =~= as_actions(crate::snapshot::answered(step, replies)));
    }
}

/// A command hands the replies on to its restoration and does what that asks for.
pub proof fn command_follows_restore(
    session: SessionView,
    label: Text,
    step: RestoreStepView,
    again: bool,
    replies: Seq<ReplyView>,
)
    requires
        crate::restore::answered(step, replies).len() == replies.len(),
    ensures
        ({
            let turn = session.restoring(label, step, again);
            &&& after_events(turn, as_events(replies)) == session.restoring(
                label,
                crate::restore::after_replies(step, replies),
                again,
            )
            &&& performed(turn, as_events(replies)) == as_actions(
                crate::restore::answered(step, replies),
            )
        }),
    decreases replies.len(),
{
    let turn = session.restoring(label, step, again);
    let events = as_events(replies);
    if replies.len() > 0 {
        if let RestoreStepView::Ask(restore, request) = step {
            let next = restore.step(replies[0]);
            let rest = replies.drop_first();
            assert(crate::restore::answered(step, replies) == seq![request]
                + crate::restore::answered(next, rest));
            command_follows_restore(session, label, next, again, rest);
            assert(events[0] == EventView::Reply(replies[0]));
            assert(events.drop_first() =~= as_events(rest));
            assert(turn.session.step(events[0]) == session.restoring(label, next, again));
            assert(performed(turn, events) =~= as_actions(
                crate::restore::answered(step, replies),
            ));
        }
    } else {
        assert(performed(turn, events) =~= as_actions(crate::restore::answered(step, replies)));
    }
}

/// As much is asked of the tabs as is answered.
proof fn tabs_are_answered(
    self_pid: u64,
    tabs: Seq<TabRowView>,
    roots: Seq<LayoutView>,
    infos: Seq<Seq<ProcessInfoView>>,
    from: nat,
)
    requires
        all_known(self_pid, tabs, roots, infos),
        from <= roots.len(),
    ensures
        tabs_requests(tabs, roots, from).len() == tabs_replies(roots, infos, from).len(),
    decreases roots.len() - from,
{
    if from < roots.len() {
        tabs_are_answered(self_pid, tabs, roots, infos, from + 1);
        assert(infos[from as int].len() == roots[from as int].pane_ids().len());
    }
}

/// What a workspace is found to consist of.
pub open spec fn live_form(
    workspace: WorkspaceView,
    self_pid: u64,
    tabs: Seq<TabRowView>,
    roots: Seq<LayoutView>,
    infos: Seq<Seq<ProcessInfoView>>,
) -> DefinitionView {
    DefinitionView {
        label: workspace.label,
        tabs: tabs_taken_down(workspace, self_pid, tabs, roots, infos, tabs.len()),
    }
}

/// What is saved of a workspace.
pub open spec fn saved_form(
    workspace: WorkspaceView,
    self_pid: u64,
    tabs: Seq<TabRowView>,
    roots: Seq<LayoutView>,
    infos: Seq<Seq<ProcessInfoView>>,
) -> DefinitionView {
    live_form(workspace, self_pid, tabs, roots, infos).saved()
}

/// `pen save` asks for the pane that it was started in, finds its workspace among the
/// running ones, takes down all of its tabs, writes them to the file of the
/// workspace's label, shows a message and reports the workspace as saved.
#[verifier::rlimit(60)]
#[verifier::spinoff_prover]
pub proof fn save_saves_the_workspace(
    context: ContextView,
    workspaces: Seq<WorkspaceView>,
    workspace: WorkspaceView,
    tabs: Seq<TabRowView>,
    roots: Seq<LayoutView>,
    infos: Seq<Seq<ProcessInfoView>>,
)
    requires
        with_id(workspaces, workspace.id) == Some(workspace),
        tabs.len() > 0,
        all_known(context.self_pid, tabs, roots, infos),
    ensures
        ({
            let definition = saved_form(workspace, context.self_pid, tabs, roots, infos);
            let turn = begin(seq!["save"@], context);
            let found = as_events(
                seq![
                    ReplyView::CurrentPane { workspace_id: workspace.id },
                    ReplyView::Workspaces(workspaces),
                ],
            );
            let taken = as_events(seq![ReplyView::Tabs(tabs)] + tabs_replies(roots, infos, 0));
            let written = seq![EventView::Saved, EventView::Reply(ReplyView::Done)];
            let title = "セッション "@ + workspace.label + " を保存しました"@;
            &&& performed(turn, found + taken + written) == as_actions(
                seq![
                    RequestView::CurrentPane { caller_pane_id: context.caller_pane_id },
                    RequestView::ListWorkspaces,
                ],
            ) + as_actions(
                seq![RequestView::ListTabs { workspace_id: workspace.id }] + tabs_requests(
                    tabs,
                    roots,
                    0,
                ),
            ) + seq![
                ActionView::SaveDefinition {
                    file_name: file_stem(workspace.label) + ".toml"@,
                    definition,
                },
                ActionView::Call(RequestView::Notify { title }),
            ]
            &&& after_events(turn, found + taken + written).action == ActionView::Finish(
                Ok("saved "@ + workspace.label + "\n"@),
            )
        }),
{
    let label = workspace.label;
    let definition = saved_form(workspace, context.self_pid, tabs, roots, infos);
    let turn = begin(seq!["save"@], context);
    let found = as_events(
        seq![
            ReplyView::CurrentPane { workspace_id: workspace.id },
            ReplyView::Workspaces(workspaces),
        ],
    );
    let replies = seq![ReplyView::Tabs(tabs)] + tabs_replies(roots, infos, 0);
    let taken = as_events(replies);
    let written = seq![EventView::Saved, EventView::Reply(ReplyView::Done)];
    let s = SnapshotView::start(workspace, context.self_pid);
    let step = SnapshotStepView::Ask(s, s.request());
    distinct_commands();
    let pane = EventView::Reply(ReplyView::CurrentPane { workspace_id: workspace.id });
    let list = EventView::Reply(ReplyView::Workspaces(workspaces));
    assert(found =~= seq![pane, list]);
    two_events(turn, pane, list);
    let session = after_events(turn, found).session;
    assert(after_events(turn, found) == session.saving(label, step));
    assert(performed(turn, found) =~= as_actions(
        seq![
            RequestView::CurrentPane { caller_pane_id: context.caller_pane_id },
            RequestView::ListWorkspaces,
        ],
    ));
    snapshot_takes_down_every_tab(workspace, context.self_pid, tabs, roots, infos);
    tabs_are_answered(context.self_pid, tabs, roots, infos, 0);
    save_follows_snapshot(session, label, step, replies);
    events_in_parts(turn, found, taken);
    events_in_parts(turn, found + taken, written);
    let done = after_events(turn, found + taken);
    assert(done.session == (SessionView { state: StateView::Write(label), ..session }));
    assert(done.action == (ActionView::SaveDefinition {
        file_name: file_stem(label) + ".toml"@,
        definition,
    }));
    two_events(done, EventView::Saved, EventView::Reply(ReplyView::Done));
    assert(performed(done, written) == seq![
        done.action,
        ActionView::Call(
            RequestView::Notify { title: "セッション "@ + label + " を保存しました"@ },
        ),
    ]);
}

/// The names of the commands differ.
proof fn distinct_commands()
    ensures
        "save"@ != "help"@,
        "save"@ != "--help"@,
        "save"@ != "-h"@,
{
    reveal_strlit("save");
    reveal_strlit("help");
    reveal_strlit("--help");
    reveal_strlit("-h");
    assert("save"@[0] == 's' && "help"@[0] == 'h' && "--help"@[0] == '-' && "-h"@[0] == '-');
}

/// What was saved is found again and restored as it was: every tab in its place, with
/// its label, its panes and their commands, and with the tab selected that was the
/// active one. Enter brings the workspace to the front and ends the command; Space
/// leaves the focus where it is and comes back to the picker.
pub proof fn restore_brings_back_what_was_saved(
    workspace: WorkspaceView,
    self_pid: u64,
    tabs: Seq<TabRowView>,
    roots: Seq<LayoutView>,
    infos: Seq<Seq<ProcessInfoView>>,
    stored: Seq<StoredView>,
    file: int,
    session: SessionView,
    workspaces: Seq<WorkspaceView>,
    output: Text,
    key: Text,
    workspace_id: Text,
    tab_id: Text,
    ids: Seq<Text>,
)
    requires
        tabs.len() > 0,
        all_known(self_pid, tabs, roots, infos),
        0 <= file < stored.len(),
        stored[file] == StoredView::Tabs(saved_form(workspace, self_pid, tabs, roots, infos)),
        forall|j: int|
            file < j < stored.len() ==> (#[trigger] stored[j]).definition().label
                != workspace.label,
        session.state == StateView::Choose(by_label(stored), workspaces),
        running(workspaces, workspace.label) is None,
        key == "enter"@ || key == "space"@,
        picked(output) == Some((key, workspace.label)),
        ids.len() == tabs.len(),
    ensures
        ({
            let turn = session.step(EventView::Picked(Some(output)));
            let built = saved_form(workspace, self_pid, tabs, roots, infos).tabs;
            let to_front = key == "enter"@;
            let events = as_events(
                seq![ReplyView::Created { workspace_id, tab_id }] + crate::restore::applied(ids)
                    + focus_replies(to_front),
            );
            &&& performed(turn, events) == as_actions(
                seq![
                    RequestView::CreateWorkspace { label: workspace.label },
                    apply_request(built[0], TargetView::Tab(tab_id)),
                ] + append_requests(built.drop_first(), workspace_id) + focus_requests(
                    ids[active_tab(built) as int],
                    workspace_id,
                    to_front,
                ),
            )
            &&& after_events(turn, events) == session.report(
                "restored "@ + workspace.label,
                !to_front,
            )
        }),
{
    let definition = saved_form(workspace, self_pid, tabs, roots, infos);
    let label = workspace.label;
    let to_front = key == "enter"@;
    let turn = session.step(EventView::Picked(Some(output)));
    let replies = seq![ReplyView::Created { workspace_id, tab_id }] + crate::restore::applied(ids)
        + focus_replies(to_front);
    let step = RestoreView::begin(definition, to_front);
    stored_definition_is_found(stored, file);
    assert(by_label(stored).get(label) == Some(definition));
    reveal_strlit("enter");
    reveal_strlit("space");
    assert("enter"@[0] == 'e' && "space"@[0] == 's');
    assert(turn == session.restoring(label, step, !to_front));
    restore_rebuilds_every_tab(definition, to_front, workspace_id, tab_id, ids);
    command_follows_restore(session, label, step, !to_front, replies);
}

/// The tab that a restoration selects is the first one with the id that was the
/// workspace's active tab, or the first tab where none has it.
pub proof fn active_tab_is_saved(
    workspace: WorkspaceView,
    self_pid: u64,
    tabs: Seq<TabRowView>,
    roots: Seq<LayoutView>,
    infos: Seq<Seq<ProcessInfoView>>,
    i: int,
)
    requires
        0 <= i <= tabs.len(),
        i < tabs.len() ==> tabs[i].tab_id == workspace.active_tab_id,
        forall|j: int| 0 <= j < i ==> (#[trigger] tabs[j]).tab_id != workspace.active_tab_id,
    ensures
        active_tab(saved_form(workspace, self_pid, tabs, roots, infos).tabs) == (if i < tabs.len() {
            i
        } else {
            0
        }),
{
    let built = saved_form(workspace, self_pid, tabs, roots, infos).tabs;
    assert forall|j: int| 0 <= j < i implies !(#[trigger] built[j]).active by {
        assert(tabs[j].tab_id != workspace.active_tab_id);
    }
    if i < tabs.len() {
        active_tab_is_the_marked_one(built, i);
    } else {
        first_tab_stands_in(built);
    }
}

impl ClosingView {
    /// The saved definition that the closing goes by, as far as it is known.
    pub open spec fn held(self) -> Option<DefinitionView> {
        match self.stage {
            ClosingStageView::Snapshot { saved, .. } => saved,
            ClosingStageView::Ask { saved, .. } => saved,
            _ => None,
        }
    }
}

impl SessionView {
    /// Whether a workspace that is being closed is treated by its saved definition.
    pub open spec fn is_guarded(self) -> bool {
        self.state matches StateView::Close(closing, _) ==> closing.follows(closing.held())
    }
}

proof fn command_stays_guarded(turn: TurnView, events: Seq<EventView>)
    requires
        turn.session.is_guarded(),
        turn.session.is_sound(),
    ensures
        after_events(turn, events).session.is_guarded(),
        after_events(turn, events).session.is_sound(),
    decreases events.len(),
{
    if events.len() > 0 {
        command_stays_sound(turn.session, events[0]);
        command_stays_guarded(turn.session.step(events[0]), events.drop_first());
    }
}

/// Whatever happens, a command tells herdr to close a workspace only once its
/// definition is written, or the user said to discard it, or it was found to be as it
/// was saved; and then it is the workspace that is being closed.
pub proof fn no_command_discards_silently(
    args: Seq<Text>,
    context: ContextView,
    events: Seq<EventView>,
    event: EventView,
    workspace_id: Text,
)
    requires
        after_events(begin(args, context), events).session.step(event).action == ActionView::Call(
            RequestView::CloseWorkspace { workspace_id },
        ),
    ensures
        after_events(begin(args, context), events).session.state matches StateView::Close(
            closing,
            _,
        ) && closing.cleared(closing.held(), event) && workspace_id == closing.workspace.id,
{
    let session = after_events(begin(args, context), events).session;
    command_stays_guarded(begin(args, context), events);
    if let StateView::Close(closing, _) = session.state {
        let kept = match (closing.stage, event) {
            (ClosingStageView::Look, EventView::Definitions(stored)) => by_label(stored).get(
                closing.workspace.label,
            ),
            _ => closing.held(),
        };
        closed_only_once_cleared(closing, kept, event, workspace_id);
    }
}

/// Whatever happens, all that a command writes can be restored, and stands in the
/// file of its own label.
pub proof fn every_written_definition_is_restorable(
    args: Seq<Text>,
    context: ContextView,
    events: Seq<EventView>,
    name: Text,
    definition: DefinitionView,
)
    requires
        after_events(begin(args, context), events).action == (ActionView::SaveDefinition {
            file_name: name,
            definition,
        }),
    ensures
        definition.is_restorable(),
        name == file_stem(definition.label) + ".toml"@,
{
    let turn = begin(args, context);
    if events.len() > 0 {
        let last = events.last();
        let rest = events.drop_last();
        assert(events =~= rest + seq![last]);
        events_in_parts(turn, rest, seq![last]);
        let before = after_events(turn, rest);
        reveal_with_fuel(after_events, 2);
        assert(seq![last].drop_first() =~= seq![]);
        assert(after_events(before, seq![last]) == before.session.step(last));
        command_stays_guarded(turn, rest);
        command_stays_sound(before.session, last);
    }
}

/// The rows that a command shows come in ascending order of their labels: each saved
/// and each running workspace once, and nothing else.
pub proof fn shown_rows_come_in_order(stored: Seq<StoredView>, workspaces: Seq<WorkspaceView>)
    ensures
        ({
            let offered = rows(by_label(stored).dom(), workspaces);
            let labels = in_order(offered.dom());
            &&& listing(offered) == listed(labels, offered)
            &&& ascending(labels)
            &&& forall|label: Text| #[trigger]
                labels.contains(label) <==> by_label(stored).contains_key(label) || is_running(
                    workspaces,
                    label,
                )
        }),
{
    let offered = rows(by_label(stored).dom(), workspaces);
    let labels = in_order(offered.dom());
    labels_are_finite(stored);
    rows_come_in_order(by_label(stored).dom(), workspaces);
    assert forall|label: Text| #[trigger]
        labels.contains(label) <==> by_label(stored).contains_key(label) || is_running(
            workspaces,
            label,
        ) by {
        assert(labels.to_set().contains(label) <==> offered.dom().contains(label));
    }
}

/// Whether `stored` is what the files of a directory hold, in some order.
pub open spec fn lists(stored: Seq<StoredView>, files: Map<Text, StoredView>) -> bool {
    exists|names: Seq<Text>| #[trigger] lists_by(stored, files, names)
}

/// Whether `stored` is what the files of a directory hold, in the order of `names`.
pub open spec fn lists_by(
    stored: Seq<StoredView>,
    files: Map<Text, StoredView>,
    names: Seq<Text>,
) -> bool {
    &&& names.len() == stored.len()
    &&& names.no_duplicates()
    &&& names.to_set() == files.dom()
    &&& forall|i: int| 0 <= i < stored.len() ==> #[trigger] stored[i] == files[names[i]]
}

/// The definition in a file is found under its label, in whatever order the files are
/// read, as long as no other file has that label.
pub proof fn definition_is_found_among_files(
    files: Map<Text, StoredView>,
    stored: Seq<StoredView>,
    name: Text,
)
    requires
        lists(stored, files),
        files.contains_key(name),
        forall|other: Text| #[trigger]
            files.contains_key(other) && other != name ==> files[other].definition().label
                != files[name].definition().label,
    ensures
        by_label(stored).get(files[name].definition().label) == Some(files[name].definition()),
{
    let names = choose|names: Seq<Text>| #[trigger] lists_by(stored, files, names);
    assert(names.to_set().contains(name));
    let i = choose|i: int| 0 <= i < names.len() && names[i] == name;
    assert(stored[i] == files[name]);
    assert forall|j: int| i < j < stored.len() implies (#[trigger] stored[j]).definition().label
        != stored[i].definition().label by {
        assert(names[j] != names[i]);
        assert(names.to_set().contains(names[j]));
        assert(files.contains_key(names[j]));
        assert(stored[j] == files[names[j]]);
    }
    stored_definition_is_found(stored, i);
}

/// The directory after a definition is written to a file.
pub open spec fn with_file(
    files: Map<Text, StoredView>,
    name: Text,
    definition: DefinitionView,
) -> Map<Text, StoredView> {
    files.insert(name, StoredView::Tabs(definition))
}

/// What a command writes of a workspace is found again under the workspace's label, in
/// whatever order the files are read: everything but the running panes. No other file
/// may have that label.
pub proof fn saved_definition_is_found(
    files: Map<Text, StoredView>,
    definition: DefinitionView,
    stored: Seq<StoredView>,
)
    requires
        ({
            let name = file_stem(definition.label) + ".toml"@;
            &&& lists(stored, with_file(files, name, definition.saved()))
            &&& forall|other: Text| #[trigger]
                files.contains_key(other) && other != name ==> files[other].definition().label
                    != definition.label
        }),
    ensures
        by_label(stored).get(definition.label) == Some(definition.saved()),
{
    let name = file_stem(definition.label) + ".toml"@;
    let after = with_file(files, name, definition.saved());
    assert forall|other: Text| #[trigger]
        after.contains_key(other) && other != name implies after[other].definition().label
        != after[name].definition().label by {
        assert(files.contains_key(other));
    }
    definition_is_found_among_files(after, stored, name);
}

impl SessionView {
    /// Where a command stands when its closing stands at `step`.
    pub open spec fn closing_at(self, step: ClosingStepView, again: bool) -> TurnView {
        match step {
            ClosingStepView::Act(closing, action) => self.act(
                StateView::Close(closing, again),
                action,
            ),
            ClosingStepView::Done(label) => self.report("closed "@ + label, again),
            ClosingStepView::Failed(message) => self.finish(Err(message)),
        }
    }
}

impl ClosingView {
    /// Where a closing stands when its snapshot stands at `step`.
    pub open spec fn taking(
        self,
        saved: Option<DefinitionView>,
        answer: Option<Text>,
        step: SnapshotStepView,
    ) -> ClosingStepView {
        match step {
            SnapshotStepView::Ask(snapshot, request) => ClosingStepView::Act(
                ClosingView {
                    stage: ClosingStageView::Snapshot { saved, answer, snapshot },
                    ..self
                },
                ActionView::Call(request),
            ),
            SnapshotStepView::Done(live) => self.decide(saved, Some(live), answer),
            SnapshotStepView::Failed(message) => ClosingStepView::Failed(message),
        }
    }
}

/// A closing hands the replies on to its snapshot.
proof fn close_follows_snapshot(
    session: SessionView,
    closing: ClosingView,
    saved: Option<DefinitionView>,
    answer: Option<Text>,
    step: SnapshotStepView,
    again: bool,
    replies: Seq<ReplyView>,
)
    requires
        crate::snapshot::answered(step, replies).len() == replies.len(),
    ensures
        ({
            let turn = session.closing_at(closing.taking(saved, answer, step), again);
            let end = crate::snapshot::after_replies(step, replies);
            &&& after_events(turn, as_events(replies)) == session.closing_at(
                closing.taking(saved, answer, end),
                again,
            )
            &&& performed(turn, as_events(replies)) == as_actions(
                crate::snapshot::answered(step, replies),
            )
        }),
    decreases replies.len(),
{
    let turn = session.closing_at(closing.taking(saved, answer, step), again);
    let events = as_events(replies);
    if replies.len() > 0 {
        if let SnapshotStepView::Ask(snapshot, request) = step {
            let next = snapshot.step(replies[0]);
            let rest = replies.drop_first();
            assert(crate::snapshot::answered(step, replies) == seq![request]
                + crate::snapshot::answered(next, rest));
            close_follows_snapshot(session, closing, saved, answer, next, again, rest);
            assert(events[0] == EventView::Reply(replies[0]));
            assert(events.drop_first() =~= as_events(rest));
            assert(turn.session.step(events[0]) == session.closing_at(
                closing.taking(saved, answer, next),
                again,
            ));
            assert(performed(turn, events) =~= as_actions(
                crate::snapshot::answered(step, replies),
            ));
        }
    } else {
        assert(performed(turn, events) =~= as_actions(crate::snapshot::answered(step, replies)));
    }
}

/// All that herdr says of a workspace completes the snapshot that a closing takes.
proof fn close_takes_down_every_tab(
    session: SessionView,
    closing: ClosingView,
    saved: Option<DefinitionView>,
    answer: Option<Text>,
    again: bool,
    tabs: Seq<TabRowView>,
    roots: Seq<LayoutView>,
    infos: Seq<Seq<ProcessInfoView>>,
)
    requires
        tabs.len() > 0,
        all_known(closing.self_pid, tabs, roots, infos),
    ensures
        ({
            let s = SnapshotView::start(closing.workspace, closing.self_pid);
            let step = SnapshotStepView::Ask(s, s.request());
            let turn = session.closing_at(closing.taking(saved, answer, step), again);
            let live = live_form(closing.workspace, closing.self_pid, tabs, roots, infos);
            let taken = as_events(seq![ReplyView::Tabs(tabs)] + tabs_replies(roots, infos, 0));
            &&& after_events(turn, taken) == session.closing_at(
                closing.decide(saved, Some(live), answer),
                again,
            )
            &&& performed(turn, taken) == as_actions(
                seq![RequestView::ListTabs { workspace_id: closing.workspace.id }]
                    + tabs_requests(tabs, roots, 0),
            )
        }),
{
    let s = SnapshotView::start(closing.workspace, closing.self_pid);
    let step = SnapshotStepView::Ask(s, s.request());
    let replies = seq![ReplyView::Tabs(tabs)] + tabs_replies(roots, infos, 0);
    snapshot_takes_down_every_tab(closing.workspace, closing.self_pid, tabs, roots, infos);
    tabs_are_answered(closing.self_pid, tabs, roots, infos, 0);
    close_follows_snapshot(session, closing, saved, answer, step, again, replies);
}

/// A workspace that is not saved asks whether to save it. Where the user wants that, it
/// is taken down completely, written to the file of its label and then closed; the
/// definition is found under that label afterwards, in whatever order the files are
/// read, as long as no other file has the label.
#[verifier::rlimit(60)]
#[verifier::spinoff_prover]
pub proof fn unsaved_workspace_is_saved_and_closed(
    session: SessionView,
    workspace: WorkspaceView,
    again: bool,
    before: Seq<StoredView>,
    line: Text,
    tabs: Seq<TabRowView>,
    roots: Seq<LayoutView>,
    infos: Seq<Seq<ProcessInfoView>>,
    files: Map<Text, StoredView>,
    after: Seq<StoredView>,
)
    requires
        by_label(before).get(workspace.label) is None,
        chosen(line, false) is Keep,
        tabs.len() > 0,
        all_known(session.self_pid, tabs, roots, infos),
        lists(before, files),
        lists(
            after,
            with_file(
                files,
                file_stem(workspace.label) + ".toml"@,
                saved_form(workspace, session.self_pid, tabs, roots, infos),
            ),
        ),
    ensures
        ({
            let definition = saved_form(workspace, session.self_pid, tabs, roots, infos);
            let turn = session.close(workspace, again);
            let asked = seq![EventView::Definitions(before), EventView::Answer(line)];
            let taken = as_events(seq![ReplyView::Tabs(tabs)] + tabs_replies(roots, infos, 0));
            let written = seq![EventView::Saved, EventView::Reply(ReplyView::Done)];
            &&& performed(turn, asked + taken + written) == seq![
                ActionView::LoadDefinitions,
                ActionView::Ask(unsaved_prompt(workspace.label)),
            ] + as_actions(
                seq![RequestView::ListTabs { workspace_id: workspace.id }] + tabs_requests(
                    tabs,
                    roots,
                    0,
                ),
            ) + seq![
                ActionView::SaveDefinition {
                    file_name: file_stem(workspace.label) + ".toml"@,
                    definition,
                },
                ActionView::Call(RequestView::CloseWorkspace { workspace_id: workspace.id }),
            ]
            &&& after_events(turn, asked + taken + written) == session.report(
                "closed "@ + workspace.label,
                again,
            )
            &&& by_label(after).get(workspace.label) == Some(definition)
        }),
{
    let label = workspace.label;
    let live = live_form(workspace, session.self_pid, tabs, roots, infos);
    let turn = session.close(workspace, again);
    let closing = ClosingView::start(workspace, session.self_pid);
    let s = SnapshotView::start(workspace, session.self_pid);
    let step = SnapshotStepView::Ask(s, s.request());
    let asked = seq![EventView::Definitions(before), EventView::Answer(line)];
    let taken = as_events(seq![ReplyView::Tabs(tabs)] + tabs_replies(roots, infos, 0));
    let written = seq![EventView::Saved, EventView::Reply(ReplyView::Done)];
    two_events(turn, EventView::Definitions(before), EventView::Answer(line));
    assert(after_events(turn, asked) == session.closing_at(
        closing.taking(None, Some(line), step),
        again,
    ));
    assert(performed(turn, asked) =~= seq![
        ActionView::LoadDefinitions,
        ActionView::Ask(unsaved_prompt(label)),
    ]);
    close_takes_down_every_tab(session, closing, None, Some(line), again, tabs, roots, infos);
    events_in_parts(turn, asked, taken);
    events_in_parts(turn, asked + taken, written);
    let done = after_events(turn, asked + taken);
    assert(done.action == (ActionView::SaveDefinition {
        file_name: file_stem(label) + ".toml"@,
        definition: live.saved(),
    }));
    two_events(done, EventView::Saved, EventView::Reply(ReplyView::Done));
    assert(performed(done, written) == seq![
        done.action,
        ActionView::Call(RequestView::CloseWorkspace { workspace_id: workspace.id }),
    ]);
    assert forall|other: Text| #[trigger]
        files.contains_key(other) && other != file_stem(label)
            + ".toml"@ implies files[other].definition().label != live.label by {
        listed_label_is_known(files, before, other);
    }
    saved_definition_is_found(files, live, after);
}

/// A label that some file has is known once the files are read.
proof fn listed_label_is_known(files: Map<Text, StoredView>, stored: Seq<StoredView>, name: Text)
    requires
        lists(stored, files),
        files.contains_key(name),
    ensures
        by_label(stored).contains_key(files[name].definition().label),
{
    let names = choose|names: Seq<Text>| #[trigger] lists_by(stored, files, names);
    assert(names.to_set().contains(name));
    let i = choose|i: int| 0 <= i < names.len() && names[i] == name;
    assert(stored[i] == files[name]);
    stored_label_is_known(stored, i);
}

/// A workspace that is as it was saved is taken down in order to see that, and then
/// closed without a question and without a word written.
#[verifier::rlimit(60)]
#[verifier::spinoff_prover]
pub proof fn unchanged_workspace_is_closed_silently(
    session: SessionView,
    workspace: WorkspaceView,
    again: bool,
    stored: Seq<StoredView>,
    tabs: Seq<TabRowView>,
    roots: Seq<LayoutView>,
    infos: Seq<Seq<ProcessInfoView>>,
)
    requires
        tabs.len() > 0,
        all_known(session.self_pid, tabs, roots, infos),
        by_label(stored).get(workspace.label) is Some,
        by_label(stored)[workspace.label].saved() == saved_form(
            workspace,
            session.self_pid,
            tabs,
            roots,
            infos,
        ),
    ensures
        ({
            let turn = session.close(workspace, again);
            let looked = seq![EventView::Definitions(stored)];
            let taken = as_events(seq![ReplyView::Tabs(tabs)] + tabs_replies(roots, infos, 0));
            let closed = seq![EventView::Reply(ReplyView::Done)];
            &&& performed(turn, looked + taken + closed) == seq![ActionView::LoadDefinitions]
                + as_actions(
                seq![RequestView::ListTabs { workspace_id: workspace.id }] + tabs_requests(
                    tabs,
                    roots,
                    0,
                ),
            ) + seq![
                ActionView::Call(RequestView::CloseWorkspace { workspace_id: workspace.id }),
            ]
            &&& after_events(turn, looked + taken + closed) == session.report(
                "closed "@ + workspace.label,
                again,
            )
        }),
{
    let turn = session.close(workspace, again);
    let closing = ClosingView::start(workspace, session.self_pid);
    let saved = by_label(stored).get(workspace.label);
    let s = SnapshotView::start(workspace, session.self_pid);
    let step = SnapshotStepView::Ask(s, s.request());
    let looked = seq![EventView::Definitions(stored)];
    let taken = as_events(seq![ReplyView::Tabs(tabs)] + tabs_replies(roots, infos, 0));
    let closed = seq![EventView::Reply(ReplyView::Done)];
    one_event(turn, EventView::Definitions(stored));
    assert(after_events(turn, looked) == session.closing_at(
        closing.taking(saved, None, step),
        again,
    ));
    assert(performed(turn, looked) =~= seq![ActionView::LoadDefinitions]);
    close_takes_down_every_tab(session, closing, saved, None, again, tabs, roots, infos);
    events_in_parts(turn, looked, taken);
    events_in_parts(turn, looked + taken, closed);
    let done = after_events(turn, looked + taken);
    one_event(done, EventView::Reply(ReplyView::Done));
}

/// A workspace that differs from its saved definition asks whether to update that.
/// Where the user wants it, what the workspace consists of is written and then the
/// workspace closed; where the user discards it, the workspace is closed and nothing
/// written.
#[verifier::rlimit(60)]
#[verifier::spinoff_prover]
pub proof fn changed_workspace_is_asked_about(
    session: SessionView,
    workspace: WorkspaceView,
    again: bool,
    stored: Seq<StoredView>,
    line: Text,
    tabs: Seq<TabRowView>,
    roots: Seq<LayoutView>,
    infos: Seq<Seq<ProcessInfoView>>,
)
    requires
        tabs.len() > 0,
        all_known(session.self_pid, tabs, roots, infos),
        by_label(stored).get(workspace.label) is Some,
        by_label(stored)[workspace.label].saved() != saved_form(
            workspace,
            session.self_pid,
            tabs,
            roots,
            infos,
        ),
    ensures
        ({
            let definition = saved_form(workspace, session.self_pid, tabs, roots, infos);
            let turn = session.close(workspace, again);
            let looked = seq![EventView::Definitions(stored)];
            let taken = as_events(seq![ReplyView::Tabs(tabs)] + tabs_replies(roots, infos, 0));
            let answered = after_events(turn, looked + taken + seq![EventView::Answer(line)]);
            &&& performed(turn, looked + taken + seq![EventView::Answer(line)]) == seq![
                ActionView::LoadDefinitions,
            ] + as_actions(
                seq![RequestView::ListTabs { workspace_id: workspace.id }] + tabs_requests(
                    tabs,
                    roots,
                    0,
                ),
            ) + seq![ActionView::Ask(differs_prompt(workspace.label))]
            &&& match chosen(line, true) {
                Choice::Keep => answered.action == (ActionView::SaveDefinition {
                    file_name: file_stem(workspace.label) + ".toml"@,
                    definition,
                }) && answered.session.step(EventView::Saved).action == ActionView::Call(
                    RequestView::CloseWorkspace { workspace_id: workspace.id },
                ),
                Choice::Discard => answered.action == ActionView::Call(
                    RequestView::CloseWorkspace { workspace_id: workspace.id },
                ),
                Choice::Cancel => answered == session.finish(
                    Err("close cancelled; workspace differs from its saved definition"@),
                ),
            }
        }),
{
    let turn = session.close(workspace, again);
    let closing = ClosingView::start(workspace, session.self_pid);
    let saved = by_label(stored).get(workspace.label);
    let s = SnapshotView::start(workspace, session.self_pid);
    let step = SnapshotStepView::Ask(s, s.request());
    let looked = seq![EventView::Definitions(stored)];
    let taken = as_events(seq![ReplyView::Tabs(tabs)] + tabs_replies(roots, infos, 0));
    let answer = seq![EventView::Answer(line)];
    one_event(turn, EventView::Definitions(stored));
    assert(after_events(turn, looked) == session.closing_at(
        closing.taking(saved, None, step),
        again,
    ));
    assert(performed(turn, looked) =~= seq![ActionView::LoadDefinitions]);
    close_takes_down_every_tab(session, closing, saved, None, again, tabs, roots, infos);
    events_in_parts(turn, looked, taken);
    events_in_parts(turn, looked + taken, answer);
    let done = after_events(turn, looked + taken);
    assert(done.action == ActionView::Ask(differs_prompt(workspace.label)));
    one_event(done, EventView::Answer(line));
}

} // verus!
