//! How commands run, from the arguments to the end.

use crate::closing::{chosen, ClosingStageView};
use crate::definition::{by_label, commands_go_to_their_panes, same_place, saving_drops_only_ids, DefinitionView, LayoutView, StoredView};
use crate::exchange::{ActionView, EventView, NoteView};
use crate::guarantees::{after_events, as_actions, as_events, command_follows_restore, performed, saved_form, shown_rows_come_in_order};
use crate::picker::{choice_is_carried_out, cut_at_line_feeds, every_label_has_its_line, is_running, listed, picked, row_line, rows};
use crate::process::ProcessInfoView;
use crate::protocol::{ReplyView, RequestView, TabRowView, TargetView, WorkspaceView};
use crate::restore::{active_tab, append_requests, applied, apply_request, focus_replies, focus_requests, restore_rebuilds_every_tab, RestoreStepView, RestoreView};
use crate::session::{begin, with_id, ContextView, Purpose, SessionView, StateView, TurnView, HELP};
use crate::snapshot::{all_known, commands, SnapshotStepView, SnapshotView};
use crate::text::{quoted_text, Text};
use crate::text_map::{ascending, in_order};
use vstd::prelude::*;

verus! {

/// A command that ends does so with its result, and says nothing besides.
pub proof fn end_gives_the_result(session: SessionView, result: Result<Text, Text>)
    ensures
        session.finish(result).action == ActionView::Finish(result),
        session.finish(result).note is None,
        session.finish(result).session.state is Finished,
{
}

/// What is done is told in a line: where the picker comes back, on the way, and the
/// definitions are read anew; otherwise as the result of the command.
pub proof fn deed_is_told(session: SessionView, line: Text, again: bool)
    ensures
        ({
            let turn = session.report(line, again);
            if again {
                &&& turn.note == Some(NoteView::Line(line))
                &&& turn.action is LoadDefinitions
                &&& turn.session.state is Load
                &&& turn.session.self_pid == session.self_pid
            } else {
                &&& turn.note is None
                &&& turn.action == ActionView::Finish(Ok(line + "\n"@))
            }
        }),
{
}

/// The workspace of an id is the first one in the list that has it.
pub proof fn first_workspace_of_the_id_counts(workspaces: Seq<WorkspaceView>, id: Text, i: int)
    requires
        0 <= i <= workspaces.len(),
        i < workspaces.len() ==> workspaces[i].id == id,
        forall|j: int| 0 <= j < i ==> (#[trigger] workspaces[j]).id != id,
    ensures
        with_id(workspaces, id) == (if i < workspaces.len() {
            Some(workspaces[i])
        } else {
            None
        }),
    decreases i,
{
    if i > 0 {
        let rest = workspaces.drop_first();
        assert(workspaces[0].id != id);
        assert forall|j: int| 0 <= j < i - 1 implies (#[trigger] rest[j]).id != id by {
            assert(rest[j] == workspaces[j + 1]);
        }
        first_workspace_of_the_id_counts(rest, id, i - 1);
    }
}

proof fn found_workspace_has_the_id(workspaces: Seq<WorkspaceView>, id: Text)
    ensures
        with_id(workspaces, id) is Some ==> with_id(workspaces, id)->0.id == id,
    decreases workspaces.len(),
{
    if workspaces.len() > 0 {
        found_workspace_has_the_id(workspaces.drop_first(), id);
    }
}

proof fn words_differ()
    ensures
        "save"@.len() == 4 && "save"@[0] == 's',
        "close"@.len() == 5 && "close"@[0] == 'c',
        "picker"@.len() == 6 && "picker"@[0] == 'p',
        "help"@.len() == 4 && "help"@[0] == 'h',
        "--help"@.len() == 6 && "--help"@[0] == '-',
        "-h"@.len() == 2 && "-h"@[1] == 'h',
        "version"@.len() == 7 && "version"@[0] == 'v',
        "--version"@.len() == 9 && "--version"@[0] == '-',
        "-V"@.len() == 2 && "-V"@[1] == 'V',
{
    reveal_strlit("save");
    reveal_strlit("close");
    reveal_strlit("picker");
    reveal_strlit("help");
    reveal_strlit("--help");
    reveal_strlit("-h");
    reveal_strlit("version");
    reveal_strlit("--version");
    reveal_strlit("-V");
}

/// A single word begins its command. The workspace commands ask for the pane that `pen`
/// was started in, the picker reads the definitions, and the others end at once; a word
/// that is none of them is refused by name.
pub proof fn word_begins_its_command(word: Text, context: ContextView)
    ensures
        ({
            let turn = begin(seq![word], context);
            let pane = ActionView::Call(
                RequestView::CurrentPane { caller_pane_id: context.caller_pane_id },
            );
            let asks_help = word == "help"@ || word == "--help"@ || word == "-h"@;
            let asks_version = word == "version"@ || word == "--version"@ || word == "-V"@;
            &&& turn.note is None
            &&& turn.session.self_pid == context.self_pid
            &&& word == "save"@ ==> turn.action == pane && turn.session.state == StateView::Pane(
                Purpose::Save,
            )
            &&& word == "close"@ ==> turn.action == pane && turn.session.state == StateView::Pane(
                Purpose::Close,
            )
            &&& word == "picker"@ ==> turn.action is LoadDefinitions && turn.session.state is Load
            &&& asks_help ==> turn.action == ActionView::Finish(Ok(HELP@))
            &&& asks_version ==> turn.action == ActionView::Finish(
                Ok("pen "@ + context.version + "\n"@),
            )
            &&& !asks_help && !asks_version && word != "save"@ && word != "close"@ && word
                != "picker"@ ==> turn.action == ActionView::Finish(
                Err("unknown command: "@ + word + "\n\n"@ + HELP@),
            )
        }),
{
    words_differ();
    assert(seq![word][0] == word);
}

/// No word at all asks for help, and more than one is too many.
pub proof fn one_word_at_most(args: Seq<Text>, context: ContextView)
    ensures
        args.len() == 0 ==> begin(args, context).action == ActionView::Finish(Ok(HELP@)),
        args.len() > 1 ==> begin(args, context).action == ActionView::Finish(
            Err("too many arguments\n\n"@ + HELP@),
        ),
{
}

impl SessionView {
    /// Whether the command is about to close the workspace with the given id, or has
    /// ended.
    pub open spec fn closes_only(self, id: Text) -> bool {
        match self.state {
            StateView::Workspaces(purpose, known) => purpose is Close && known == id,
            StateView::Close(closing, again) => closing.workspace.id == id && !again,
            StateView::Finished => true,
            _ => false,
        }
    }

    /// Whether the command is on the way to save a workspace, or has ended.
    pub open spec fn saves_only(self) -> bool {
        match self.state {
            StateView::Pane(purpose) => purpose is Save,
            StateView::Workspaces(purpose, _) => purpose is Save,
            StateView::Snapshot(_, _) => true,
            StateView::Write(_) => true,
            StateView::Notify(_) => true,
            StateView::Finished => true,
            _ => false,
        }
    }
}

/// Whether a request only asks herdr for something.
pub open spec fn only_asks(request: RequestView) -> bool {
    match request {
        RequestView::CurrentPane { .. } => true,
        RequestView::ListWorkspaces => true,
        RequestView::ListTabs { .. } => true,
        RequestView::ExportLayout { .. } => true,
        RequestView::InspectPane { .. } => true,
        _ => false,
    }
}

/// What `pen close` may do to the workspace with the given id.
pub open spec fn may_close(action: ActionView, id: Text) -> bool {
    match action {
        ActionView::Call(RequestView::CloseWorkspace { workspace_id }) => workspace_id == id,
        ActionView::Call(request) => only_asks(request),
        ActionView::Pick(_) => false,
        _ => true,
    }
}

/// What `pen save` may do.
pub open spec fn may_save(action: ActionView) -> bool {
    match action {
        ActionView::Call(request) => only_asks(request) || request is Notify,
        ActionView::SaveDefinition { .. } => true,
        ActionView::Finish(_) => true,
        _ => false,
    }
}

proof fn close_keeps_to_its_workspace(session: SessionView, id: Text, event: EventView)
    requires
        session.closes_only(id),
    ensures
        session.step(event).session.closes_only(id),
        may_close(session.step(event).action, id),
{
    if let (
        StateView::Workspaces(_, _),
        EventView::Reply(ReplyView::Workspaces(workspaces)),
    ) = (session.state, event) {
        found_workspace_has_the_id(workspaces, id);
    }
}

proof fn close_keeps_to_its_workspace_throughout(
    session: SessionView,
    id: Text,
    events: Seq<EventView>,
    event: EventView,
)
    requires
        session.closes_only(id),
    ensures
        ({
            let turn = TurnView { session, note: None, action: ActionView::LoadDefinitions };
            may_close(after_events(turn, events.push(event)).action, id)
        }),
    decreases events.len(),
{
    let turn = TurnView { session, note: None, action: ActionView::LoadDefinitions };
    let all = events.push(event);
    let next = session.step(all[0]);
    close_keeps_to_its_workspace(session, id, all[0]);
    let rest = all.drop_first();
    if events.len() == 0 {
        assert(rest =~= seq![]);
        assert(after_events(next, rest) == next);
    } else {
        assert(rest =~= events.drop_first().push(event));
        close_keeps_to_its_workspace_throughout(
            next.session,
            id,
            events.drop_first(),
            event,
        );
        same_session_goes_the_same_way(
            next,
            TurnView {
                session: next.session,
                note: None,
                action: ActionView::LoadDefinitions,
            },
            rest,
        );
    }
}

/// How a command goes on depends on where it stands alone.
proof fn same_session_goes_the_same_way(a: TurnView, b: TurnView, events: Seq<EventView>)
    requires
        a.session == b.session,
        events.len() > 0,
    ensures
        after_events(a, events) == after_events(b, events),
{
}

/// Whatever happens, the only workspace that `pen close` closes is the one of the pane
/// that it was started in, as herdr names it; it builds nothing, moves no focus and shows
/// no picker.
pub proof fn close_closes_the_callers_workspace(
    context: ContextView,
    events: Seq<EventView>,
    workspace_id: Text,
)
    ensures
        ({
            let action = after_events(begin(seq!["close"@], context), events).action;
            let closes = action == ActionView::Call(RequestView::CloseWorkspace { workspace_id });
            &&& closes ==> events.len() > 0 && events[0] == EventView::Reply(
                ReplyView::CurrentPane { workspace_id },
            )
            &&& match action {
                ActionView::Call(request) => only_asks(request) || request is CloseWorkspace,
                ActionView::Pick(_) => false,
                _ => true,
            }
        }),
{
    let turn = begin(seq!["close"@], context);
    word_begins_its_command("close"@, context);
    if events.len() > 0 {
        let next = turn.session.step(events[0]);
        let rest = events.drop_first();
        let id = match events[0] {
            EventView::Reply(ReplyView::CurrentPane { workspace_id: id }) => id,
            _ => workspace_id,
        };
        assert(next.session.closes_only(id));
        if rest.len() > 0 {
            let plain = TurnView {
                session: next.session,
                note: None,
                action: ActionView::LoadDefinitions,
            };
            assert(rest =~= rest.drop_last().push(rest.last()));
            close_keeps_to_its_workspace_throughout(
                next.session,
                id,
                rest.drop_last(),
                rest.last(),
            );
            same_session_goes_the_same_way(next, plain, rest);
            if next.session.state is Finished {
                ended_command_sends_nothing(next.session, rest);
            }
        } else {
            assert(after_events(next, rest) == next);
        }
    }
}

proof fn ended_command_sends_nothing(session: SessionView, events: Seq<EventView>)
    requires
        session.state is Finished,
        events.len() > 0,
    ensures
        ({
            let turn = TurnView { session, note: None, action: ActionView::LoadDefinitions };
            after_events(turn, events).action is Finish
        }),
    decreases events.len(),
{
    let next = session.step(events[0]);
    let rest = events.drop_first();
    assert(next.session.state is Finished && next.action is Finish);
    if rest.len() > 0 {
        ended_command_sends_nothing(next.session, rest);
        same_session_goes_the_same_way(
            next,
            TurnView {
                session: next.session,
                note: None,
                action: ActionView::LoadDefinitions,
            },
            rest,
        );
    } else {
        assert(after_events(next, rest) == next);
    }
}

proof fn save_stays_a_save(session: SessionView, events: Seq<EventView>)
    requires
        session.saves_only(),
    ensures
        ({
            let turn = TurnView { session, note: None, action: ActionView::Finish(Ok(seq![])) };
            may_save(after_events(turn, events).action)
        }),
    decreases events.len(),
{
    if events.len() > 0 {
        let next = session.step(events[0]);
        let rest = events.drop_first();
        assert(next.session.saves_only() && may_save(next.action));
        if rest.len() > 0 {
            save_stays_a_save(next.session, rest);
            same_session_goes_the_same_way(
                next,
                TurnView {
                    session: next.session,
                    note: None,
                    action: ActionView::Finish(Ok(seq![])),
                },
                rest,
            );
        } else {
            assert(after_events(next, rest) == next);
        }
    }
}

/// Whatever happens, `pen save` changes nothing in herdr: it asks, writes a definition and
/// shows a message, but closes, creates, fills and focuses nothing.
pub proof fn save_changes_nothing_in_herdr(context: ContextView, events: Seq<EventView>)
    ensures
        may_save(after_events(begin(seq!["save"@], context), events).action),
{
    let turn = begin(seq!["save"@], context);
    word_begins_its_command("save"@, context);
    if events.len() > 0 {
        save_stays_a_save(turn.session, events);
        same_session_goes_the_same_way(
            turn,
            TurnView {
                session: turn.session,
                note: None,
                action: ActionView::Finish(Ok(seq![])),
            },
            events,
        );
    }
}

/// `pen close` and `pen save` find the workspace of the pane among the running ones by
/// its id, and go on with that one: `pen close` begins to close it, and `pen save` asks
/// for its tabs. They end where there is none.
pub proof fn callers_workspace_is_found(
    context: ContextView,
    word: Text,
    workspaces: Seq<WorkspaceView>,
    id: Text,
    i: int,
)
    requires
        word == "save"@ || word == "close"@,
        0 <= i <= workspaces.len(),
        i < workspaces.len() ==> workspaces[i].id == id,
        forall|j: int| 0 <= j < i ==> (#[trigger] workspaces[j]).id != id,
    ensures
        ({
            let turn = begin(seq![word], context);
            let found = as_events(
                seq![
                    ReplyView::CurrentPane { workspace_id: id },
                    ReplyView::Workspaces(workspaces),
                ],
            );
            let next = after_events(turn, found);
            &&& performed(turn, found) == as_actions(
                seq![
                    RequestView::CurrentPane { caller_pane_id: context.caller_pane_id },
                    RequestView::ListWorkspaces,
                ],
            )
            &&& next.session.self_pid == context.self_pid
            &&& i == workspaces.len() ==> next.action == ActionView::Finish(
                Err("current workspace "@ + id + " was not found"@),
            )
            &&& i < workspaces.len() && word == "close"@ ==> next == turn.session.close(
                workspaces[i],
                false,
            )
            &&& i < workspaces.len() && word == "save"@ ==> next.action == ActionView::Call(
                RequestView::ListTabs { workspace_id: id },
            )
        }),
{
    reveal_with_fuel(after_events, 3);
    reveal_with_fuel(performed, 3);
    words_differ();
    word_begins_its_command(word, context);
    first_workspace_of_the_id_counts(workspaces, id, i);
    let turn = begin(seq![word], context);
    let found = as_events(
        seq![ReplyView::CurrentPane { workspace_id: id }, ReplyView::Workspaces(workspaces)],
    );
    assert(found[0] == EventView::Reply(ReplyView::CurrentPane { workspace_id: id }));
    assert(found.drop_first()[0] == EventView::Reply(ReplyView::Workspaces(workspaces)));
    assert(found.drop_first().drop_first() =~= seq![]);
    assert(performed(turn, found) =~= as_actions(
        seq![
            RequestView::CurrentPane { caller_pane_id: context.caller_pane_id },
            RequestView::ListWorkspaces,
        ],
    ));
}

/// `pen picker` reads the definitions, asks for the running workspaces and shows them:
/// one line for each saved and each running workspace, in ascending order, each with its
/// mark. What is chosen is then looked up in the same definitions and workspaces. Where
/// there is nothing to show, it ends.
pub proof fn picker_shows_every_workspace(
    context: ContextView,
    stored: Seq<StoredView>,
    workspaces: Seq<WorkspaceView>,
)
    requires
        forall|label: Text| #[trigger]
            by_label(stored).contains_key(label) || is_running(workspaces, label)
                ==> !label.contains('\n'),
    ensures
        ({
            let turn = begin(seq!["picker"@], context);
            let found = seq![
                EventView::Definitions(stored),
                EventView::Reply(ReplyView::Workspaces(workspaces)),
            ];
            let next = after_events(turn, found);
            let nothing = by_label(stored).dom() == Set::<Text>::empty() && workspaces.len() == 0;
            &&& performed(turn, found) == seq![
                ActionView::LoadDefinitions,
                ActionView::Call(RequestView::ListWorkspaces),
            ]
            &&& nothing ==> next.action == ActionView::Finish(
                Err("no saved or running workspaces"@),
            )
            &&& !nothing ==> {
                &&& next.session.state == StateView::Choose(by_label(stored), workspaces)
                &&& next.action is Pick
                &&& shows_every_workspace(next.action->Pick_0, stored, workspaces)
            }
        }),
{
    reveal_with_fuel(after_events, 3);
    reveal_with_fuel(performed, 3);
    word_begins_its_command("picker"@, context);
    let turn = begin(seq!["picker"@], context);
    let found = seq![
        EventView::Definitions(stored),
        EventView::Reply(ReplyView::Workspaces(workspaces)),
    ];
    assert(found.drop_first()[0] == EventView::Reply(ReplyView::Workspaces(workspaces)));
    assert(found.drop_first().drop_first() =~= seq![]);
    assert(performed(turn, found) =~= seq![
        ActionView::LoadDefinitions,
        ActionView::Call(RequestView::ListWorkspaces),
    ]);
    let offered = rows(by_label(stored).dom(), workspaces);
    let nothing = by_label(stored).dom() == Set::<Text>::empty() && workspaces.len() == 0;
    if nothing {
        assert(offered.dom() =~= Set::<Text>::empty());
    } else {
        let label = if workspaces.len() > 0 {
            workspaces[0].label
        } else {
            choose|label: Text| by_label(stored).dom().contains(label)
        };
        if workspaces.len() == 0 {
            assert(exists|label: Text| by_label(stored).dom().contains(label)) by {
                if forall|label: Text| !by_label(stored).dom().contains(label) {
                    assert(by_label(stored).dom() =~= Set::<Text>::empty());
                }
            }
        }
        assert(offered.dom().contains(label));
        shown_rows_come_in_order(stored, workspaces);
        let labels = in_order(offered.dom());
        assert(labels.contains(label));
        assert forall|i: int| 0 <= i < labels.len() implies !(#[trigger] labels[i]).contains(
            '\n',
        ) by {
            assert(labels.contains(labels[i]));
            assert(by_label(stored).contains_key(labels[i]) || is_running(workspaces, labels[i]));
        }
        every_label_has_its_line(labels, offered);
        let lines = cut_at_line_feeds(crate::picker::listing(offered));
        assert forall|i: int| 0 <= i < labels.len() implies lines[i] == row_line(
            #[trigger] labels[i],
            is_running(workspaces, labels[i]),
        ) by {
            assert(labels.contains(labels[i]));
            assert(lines[i] == row_line(labels[i], offered[labels[i]]));
        }
        assert(shows_labels(crate::picker::listing(offered), labels, stored, workspaces));
    }
}

/// Whether a text has a line for each saved and each running workspace.
pub open spec fn shows_every_workspace(
    text: Text,
    stored: Seq<StoredView>,
    workspaces: Seq<WorkspaceView>,
) -> bool {
    exists|labels: Seq<Text>| #[trigger] shows_labels(text, labels, stored, workspaces)
}

/// Whether the lines of a text are those of the given labels, and these are in ascending
/// order the labels of all saved and running workspaces.
pub open spec fn shows_labels(
    text: Text,
    labels: Seq<Text>,
    stored: Seq<StoredView>,
    workspaces: Seq<WorkspaceView>,
) -> bool {
    &&& ascending(labels)
    &&& forall|label: Text| #[trigger]
        labels.contains(label) <==> by_label(stored).contains_key(label) || is_running(
            workspaces,
            label,
        )
    &&& cut_at_line_feeds(text).len() == labels.len()
    &&& forall|i: int|
        0 <= i < labels.len() ==> cut_at_line_feeds(text)[i] == row_line(
            #[trigger] labels[i],
            is_running(workspaces, labels[i]),
        )
}

/// Choosing a running workspace begins to close that workspace.
pub proof fn chosen_workspace_is_closed(
    session: SessionView,
    definitions: Map<Text, DefinitionView>,
    workspaces: Seq<WorkspaceView>,
    output: Text,
    key: Text,
    label: Text,
    i: int,
)
    requires
        session.state == StateView::Choose(definitions, workspaces),
        picked(output) == Some((key, label)),
        key == "enter"@ || key == "space"@,
        0 <= i < workspaces.len(),
        workspaces[i].label == label,
        forall|j: int| 0 <= j < i ==> (#[trigger] workspaces[j]).label != label,
    ensures
        session.step(EventView::Picked(Some(output))) == session.close(
            workspaces[i],
            key == "space"@,
        ),
{
    choice_is_carried_out(output, key, label, definitions, workspaces, i);
}

/// Choosing a workspace that is not running restores the definition that is saved under
/// its label, whatever it holds: the workspace is created, each tab is built with its
/// whole layout and its label, the first in place of the initial tab and the others
/// behind it, and then the active one is selected. Enter brings the workspace to the
/// front and ends the command; Space comes back to the picker.
pub proof fn chosen_definition_is_restored(
    session: SessionView,
    definitions: Map<Text, DefinitionView>,
    workspaces: Seq<WorkspaceView>,
    output: Text,
    key: Text,
    label: Text,
    workspace_id: Text,
    tab_id: Text,
    ids: Seq<Text>,
)
    requires
        session.state == StateView::Choose(definitions, workspaces),
        picked(output) == Some((key, label)),
        key == "enter"@ || key == "space"@,
        forall|j: int| 0 <= j < workspaces.len() ==> (#[trigger] workspaces[j]).label != label,
        definitions.contains_key(label),
        definitions[label].tabs.len() > 0,
        ids.len() == definitions[label].tabs.len(),
    ensures
        ({
            let definition = definitions[label];
            let turn = session.step(EventView::Picked(Some(output)));
            let to_front = key == "enter"@;
            let events = as_events(
                seq![ReplyView::Created { workspace_id, tab_id }] + applied(ids) + focus_replies(
                    to_front,
                ),
            );
            &&& performed(turn, events) == as_actions(
                seq![
                    RequestView::CreateWorkspace { label: definition.label },
                    apply_request(definition.tabs[0], TargetView::Tab(tab_id)),
                ] + append_requests(definition.tabs.drop_first(), workspace_id) + focus_requests(
                    ids[active_tab(definition.tabs) as int],
                    workspace_id,
                    to_front,
                ),
            )
            &&& after_events(turn, events) == session.report(
                "restored "@ + definition.label,
                !to_front,
            )
        }),
{
    let definition = definitions[label];
    let to_front = key == "enter"@;
    let turn = session.step(EventView::Picked(Some(output)));
    let replies = seq![ReplyView::Created { workspace_id, tab_id }] + applied(ids) + focus_replies(
        to_front,
    );
    let step = RestoreView::begin(definition, to_front);
    reveal_strlit("enter");
    reveal_strlit("space");
    assert("enter"@[0] == 'e' && "space"@[0] == 's');
    choice_is_carried_out(
        output,
        key,
        label,
        definitions,
        workspaces,
        workspaces.len() as int,
    );
    assert(turn == session.restoring(definition.label, step, !to_front));
    restore_rebuilds_every_tab(definition, to_front, workspace_id, tab_id, ids);
    command_follows_restore(session, definition.label, step, !to_front, replies);
}

/// Leaving the picker without a choice ends the command in silence.
pub proof fn no_choice_ends_in_silence(
    session: SessionView,
    definitions: Map<Text, DefinitionView>,
    workspaces: Seq<WorkspaceView>,
    output: Option<Text>,
)
    requires
        session.state == StateView::Choose(definitions, workspaces),
        output is Some ==> picked(output->0) is None,
    ensures
        session.step(EventView::Picked(output)).action == ActionView::Finish(Ok(Text::empty())),
        session.step(EventView::Picked(output)).note is None,
{
}

/// A workspace that is not saved is asked about before anything else. To discard it is to
/// close it as it stands: nothing is asked of herdr before, and nothing is written.
/// Anything but an offered word leaves it open.
pub proof fn unsaved_workspace_is_discarded_only_on_demand(
    session: SessionView,
    workspace: WorkspaceView,
    again: bool,
    stored: Seq<StoredView>,
    line: Text,
)
    requires
        by_label(stored).get(workspace.label) is None,
        !(chosen(line, false) is Keep),
    ensures
        ({
            let turn = session.close(workspace, again);
            let asked = seq![EventView::Definitions(stored), EventView::Answer(line)];
            let next = after_events(turn, asked);
            &&& performed(turn, asked) == seq![
                ActionView::LoadDefinitions,
                ActionView::Ask(
                    "Workspace "@ + quoted_text(workspace.label)
                        + " is not saved. [s]ave, [d]iscard or [c]ancel? "@,
                ),
            ]
            &&& chosen(line, false) is Discard ==> {
                &&& next.action == ActionView::Call(
                    RequestView::CloseWorkspace { workspace_id: workspace.id },
                )
                &&& next.session.step(EventView::Reply(ReplyView::Done)) == session.report(
                    "closed "@ + workspace.label,
                    again,
                )
            }
            &&& chosen(line, false) is Cancel ==> next == session.finish(
                Err("close cancelled; workspace has no saved definition"@),
            )
        }),
{
    reveal_with_fuel(after_events, 3);
    reveal_with_fuel(performed, 3);
    let turn = session.close(workspace, again);
    let asked = seq![EventView::Definitions(stored), EventView::Answer(line)];
    assert(asked.drop_first() =~= seq![EventView::Answer(line)]);
    assert(asked.drop_first().drop_first() =~= seq![]);
    assert(performed(turn, asked) =~= seq![
        ActionView::LoadDefinitions,
        ActionView::Ask(
            "Workspace "@ + quoted_text(workspace.label)
                + " is not saved. [s]ave, [d]iscard or [c]ancel? "@,
        ),
    ]);
}

/// What is saved of a workspace is each of its tabs in its place, with its label, marked
/// where the workspace names it as its active one, and with its layout: wherever a path
/// leads there, split and pane are as herdr reported them. A running pane is saved with
/// the command that was found in the report on this pane, or with its own where it was
/// found idle.
pub proof fn every_pane_is_saved_with_its_command(
    workspace: WorkspaceView,
    self_pid: u64,
    tabs: Seq<TabRowView>,
    roots: Seq<LayoutView>,
    infos: Seq<Seq<ProcessInfoView>>,
    i: int,
    path: Seq<bool>,
)
    requires
        all_known(self_pid, tabs, roots, infos),
        0 <= i < tabs.len(),
    ensures
        ({
            let saved = saved_form(workspace, self_pid, tabs, roots, infos);
            let tab = saved.tabs[i];
            let before = roots[i].part(path);
            let after = tab.root.part(path);
            &&& saved.label == workspace.label
            &&& saved.tabs.len() == tabs.len()
            &&& tab.label == Some(tabs[i].label)
            &&& tab.active <==> tabs[i].tab_id == workspace.active_tab_id
            &&& same_place(before, after)
            &&& before is Some ==> after->0.pane_name() is None
            &&& before is Some && before->0.pane_name() is None ==> after->0.pane_command()
                == before->0.pane_command()
            &&& before is Some && before->0.pane_name() is Some ==> exists|k: int|
                {
                    &&& 0 <= k < infos[i].len()
                    &&& #[trigger] roots[i].pane_ids()[k] == before->0.pane_name()->0
                    &&& after->0.pane_command() == match infos[i][k].foreground(self_pid).command() {
                        Some(argv) => Some(argv),
                        None => before->0.pane_command(),
                    }
                }
        }),
{
    let found = commands(infos[i], self_pid);
    assert(infos[i].len() == roots[i].pane_ids().len());
    let full = roots[i].with_commands(found);
    commands_go_to_their_panes(roots[i], found, path);
    saving_drops_only_ids(full, path);
    let before = roots[i].part(path);
    let after = saved_form(workspace, self_pid, tabs, roots, infos).tabs[i].root.part(path);
    if before is Some && before->0.pane_name() is Some {
        let k = choose|k: int|
            {
                &&& 0 <= k < found.len()
                &&& #[trigger] roots[i].pane_ids()[k] == before->0.pane_name()->0
                &&& full.part(path)->0.pane_command() == if found[k] is Some {
                    found[k]
                } else {
                    before->0.pane_command()
                }
            };
        assert(found[k] == infos[i][k].foreground(self_pid).command());
        assert(roots[i].pane_ids()[k] == before->0.pane_name()->0);
    }
}

/// A workspace that cannot be taken down is neither saved nor closed: the command ends
/// with what was missing.
pub proof fn failed_snapshot_ends_the_command(
    session: SessionView,
    snapshot: SnapshotView,
    reply: ReplyView,
    message: Text,
)
    requires
        snapshot.step(reply) == SnapshotStepView::Failed(message),
        match session.state {
            StateView::Snapshot(_, taken) => taken == snapshot,
            StateView::Close(closing, _) => closing.stage matches ClosingStageView::Snapshot {
                snapshot: taken,
                ..
            } && taken == snapshot,
            _ => false,
        },
    ensures
        session.step(EventView::Reply(reply)).action == ActionView::Finish(Err(message)),
{
}

/// A restoration that fails ends the command with what went wrong.
pub proof fn failed_restoration_ends_the_command(
    session: SessionView,
    label: Text,
    restore: RestoreView,
    again: bool,
    reply: ReplyView,
    message: Text,
)
    requires
        session.state == StateView::Restore(label, restore, again),
        restore.step(reply) == RestoreStepView::Failed(message),
    ensures
        session.step(EventView::Reply(reply)).action == ActionView::Finish(Err(message)),
{
}

/// A definition without tabs cannot be restored: choosing it ends the command, before
/// anything is asked of herdr.
pub proof fn empty_definition_is_refused(
    session: SessionView,
    definitions: Map<Text, DefinitionView>,
    workspaces: Seq<WorkspaceView>,
    output: Text,
    key: Text,
    label: Text,
)
    requires
        session.state == StateView::Choose(definitions, workspaces),
        picked(output) == Some((key, label)),
        key == "enter"@ || key == "space"@,
        forall|j: int| 0 <= j < workspaces.len() ==> (#[trigger] workspaces[j]).label != label,
    ensures
        ({
            let action = session.step(EventView::Picked(Some(output))).action;
            &&& definitions.contains_key(label) && definitions[label].tabs.len() == 0 ==> action
                == ActionView::Finish(
                Err("definition "@ + quoted_text(definitions[label].label) + " has no tabs"@),
            )
            &&& !definitions.contains_key(label) ==> action == ActionView::Finish(
                Err("saved definition not found: "@ + label),
            )
        }),
{
    choice_is_carried_out(
        output,
        key,
        label,
        definitions,
        workspaces,
        workspaces.len() as int,
    );
}

/// The picker shows all rows, whatever stands in the labels, and ends only where there is
/// none.
pub proof fn picker_shows_all_rows(
    session: SessionView,
    definitions: Map<Text, DefinitionView>,
    workspaces: Seq<WorkspaceView>,
)
    requires
        session.state == StateView::List(definitions),
    ensures
        ({
            let turn = session.step(EventView::Reply(ReplyView::Workspaces(workspaces)));
            let offered = rows(definitions.dom(), workspaces);
            if definitions.dom() == Set::<Text>::empty() && workspaces.len() == 0 {
                turn.action == ActionView::Finish(Err("no saved or running workspaces"@))
            } else {
                &&& turn.action == ActionView::Pick(listed(in_order(offered.dom()), offered))
                &&& turn.session.state == StateView::Choose(definitions, workspaces)
            }
        }),
{
    let offered = rows(definitions.dom(), workspaces);
    if definitions.dom() == Set::<Text>::empty() && workspaces.len() == 0 {
        assert(offered.dom() =~= Set::<Text>::empty());
    } else if workspaces.len() > 0 {
        assert(is_running(workspaces, workspaces[0].label));
        assert(offered.dom().contains(workspaces[0].label));
    } else {
        if offered.dom() == Set::<Text>::empty() {
            assert forall|label: Text| !definitions.dom().contains(label) by {
                assert(!offered.dom().contains(label));
            }
            assert(definitions.dom() =~= Set::<Text>::empty());
        }
    }
}

/// The help names every command, one in a line.
pub proof fn help_names_every_command()
    ensures
        HELP@ == "pen — suspend and restore herdr workspaces\n\nUsage:\n"@ + "  pen save\n"@
            + "  pen close\n"@ + "  pen picker\n"@ + "  pen --version\n"@,
{
    reveal_strlit("pen — suspend and restore herdr workspaces\n\nUsage:\n");
    reveal_strlit("  pen save\n");
    reveal_strlit("  pen close\n");
    reveal_strlit("  pen picker\n");
    reveal_strlit("  pen --version\n");
    reveal_strlit(
        "pen — suspend and restore herdr workspaces\n\nUsage:\n  pen save\n  pen close\n  pen picker\n  pen --version\n",
    );
    assert(HELP@ =~= "pen — suspend and restore herdr workspaces\n\nUsage:\n"@
        + "  pen save\n"@ + "  pen close\n"@ + "  pen picker\n"@ + "  pen --version\n"@);
}

} // verus!
