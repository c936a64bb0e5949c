//! The course of a `pen` command.

use crate::closing::{Closing, ClosingStep, ClosingStepView, ClosingView};
use crate::definition::{by_label, load_definitions, Definition, DefinitionView};
use crate::exchange::{unexpected, unexpected_event, Action, ActionView, Event, EventView, Note, NoteView};
use crate::files::{definition_file, file_stem};
use crate::picker::{choose_row, list_rows, listing, pick, rows, Pick, PickView};
use crate::protocol::{Reply, ReplyView, Request, RequestView, Workspace, WorkspaceView};
use crate::restore::{Restore, RestoreStep, RestoreStepView, RestoreView};
use crate::snapshot::{Snapshot, SnapshotStep, SnapshotStepView, SnapshotView};
use crate::text::{framed, joined, same_text, Text};
use crate::text_map::TextMap;
use vstd::prelude::*;

verus! {

/// What `pen` prints about itself.
pub const HELP: &'static str =
    "pen — suspend and restore herdr workspaces\n\nUsage:\n  pen save\n  pen close\n  pen picker\n  pen --version\n";

/// Where and as what `pen` runs.
#[derive(Debug, PartialEq, Eq)]
pub struct Context {
    /// The version of the program.
    pub version: String,
    /// The process that runs it.
    pub self_pid: u64,
    /// The pane that it was started in, where that is known.
    pub caller_pane_id: Option<String>,
}

/// What is done with the workspace that `pen` was started in.
#[derive(Debug, PartialEq, Eq, Clone, Copy)]
pub enum Purpose {
    Save,
    Close,
}

/// What a command is waiting for.
#[derive(Debug, PartialEq, Eq)]
enum State {
    /// The pane that `pen` was started in.
    Pane(Purpose),
    /// The running workspaces, among them that of the pane.
    Workspaces(Purpose, String),
    /// What the workspace to be saved consists of.
    Snapshot(String, Snapshot),
    /// The file with the definition.
    Write(String),
    /// The message on the screen.
    Notify(String),
    /// The end of a workspace; then the picker `again`, or nothing.
    Close(Closing, bool),
    /// The saved definitions, for the picker.
    Load,
    /// The running workspaces, for the picker.
    List(TextMap<Definition>),
    /// The user's choice.
    Choose(TextMap<Definition>, Vec<Workspace>),
    /// A workspace; then the picker `again`, or nothing.
    Restore(String, Restore, bool),
    /// Nothing any more.
    Finished,
}

/// A command on its way.
#[derive(Debug, PartialEq, Eq)]
pub struct Session {
    self_pid: u64,
    state: State,
}

/// How a command goes on.
#[derive(Debug, PartialEq, Eq)]
pub struct Turn {
    pub session: Session,
    /// What the user is told on the way.
    pub note: Option<Note>,
    /// What has to be done.
    pub action: Action,
}

/// The model of what a command is waiting for.
pub enum StateView {
    Pane(Purpose),
    Workspaces(Purpose, Text),
    Snapshot(Text, SnapshotView),
    Write(Text),
    Notify(Text),
    Close(ClosingView, bool),
    Load,
    List(Map<Text, DefinitionView>),
    Choose(Map<Text, DefinitionView>, Seq<WorkspaceView>),
    Restore(Text, RestoreView, bool),
    Finished,
}

/// The model of a `Session`.
pub struct SessionView {
    pub self_pid: u64,
    pub state: StateView,
}

/// The model of a `Turn`.
pub struct TurnView {
    pub session: SessionView,
    pub note: Option<NoteView>,
    pub action: ActionView,
}

/// The model of a `Context`.
pub struct ContextView {
    pub version: Text,
    pub self_pid: u64,
    pub caller_pane_id: Option<Text>,
}

impl DeepView for Context {
    type V = ContextView;

    open spec fn deep_view(&self) -> ContextView {
        ContextView {
            version: self.version@,
            self_pid: self.self_pid,
            caller_pane_id: self.caller_pane_id.deep_view(),
        }
    }
}

impl State {
    spec fn model(self) -> StateView {
        match self {
            State::Pane(purpose) => StateView::Pane(purpose),
            State::Workspaces(purpose, id) => StateView::Workspaces(purpose, id@),
            State::Snapshot(label, snapshot) => StateView::Snapshot(label@, snapshot.deep_view()),
            State::Write(label) => StateView::Write(label@),
            State::Notify(label) => StateView::Notify(label@),
            State::Close(closing, again) => StateView::Close(closing.deep_view(), again),
            State::Load => StateView::Load,
            State::List(definitions) => StateView::List(definitions.deep_view()),
            State::Choose(definitions, workspaces) => StateView::Choose(
                definitions.deep_view(),
                workspaces.deep_view(),
            ),
            State::Restore(label, restore, again) => StateView::Restore(
                label@,
                restore.deep_view(),
                again,
            ),
            State::Finished => StateView::Finished,
        }
    }
}

impl DeepView for Session {
    type V = SessionView;

    closed spec fn deep_view(&self) -> SessionView {
        SessionView { self_pid: self.self_pid, state: self.state.model() }
    }
}

impl DeepView for Turn {
    type V = TurnView;

    open spec fn deep_view(&self) -> TurnView {
        TurnView {
            session: self.session.deep_view(),
            note: self.note.deep_view(),
            action: self.action.deep_view(),
        }
    }
}

/// The workspace with the given id: the first of them, where ids occur twice.
pub open spec fn with_id(workspaces: Seq<WorkspaceView>, id: Text) -> Option<WorkspaceView>
    decreases workspaces.len(),
{
    if workspaces.len() == 0 {
        None
    } else if workspaces[0].id == id {
        Some(workspaces[0])
    } else {
        with_id(workspaces.drop_first(), id)
    }
}

/// The workspace with the given id.
pub fn current_workspace(workspaces: Vec<Workspace>, id: &str) -> (result: Option<Workspace>)
    ensures
        result.deep_view() == with_id(workspaces.deep_view(), id@),
{
    let ghost all = workspaces.deep_view();
    let mut rest = workspaces;
    let mut i: usize = 0;
    assert(all.skip(0) =~= all);
    while i < rest.len()
        invariant
            all == workspaces.deep_view(),
            all == rest.deep_view(),
            i <= rest@.len(),
            with_id(all, id@) == with_id(all.skip(i as int), id@),
        decreases rest@.len() - i,
    {
        if same_text(rest[i].id.as_str(), id) {
            return Some(rest.remove(i));
        }
        assert(all.skip(i as int).drop_first() =~= all.skip(i + 1));
        i = i + 1;
    }
    None
}

impl SessionView {
    /// Goes on to wait for what `action` brings.
    pub open spec fn act(self, state: StateView, action: ActionView) -> TurnView {
        TurnView { session: SessionView { state, ..self }, note: None, action }
    }

    /// Ends the command.
    pub open spec fn finish(self, result: Result<Text, Text>) -> TurnView {
        self.act(StateView::Finished, ActionView::Finish(result))
    }

    /// Reports that something is done, and opens the picker again or ends the command.
    pub open spec fn report(self, line: Text, again: bool) -> TurnView {
        if again {
            TurnView {
                note: Some(NoteView::Line(line)),
                ..self.act(StateView::Load, ActionView::LoadDefinitions)
            }
        } else {
            self.finish(Ok(line + "\n"@))
        }
    }

    /// Takes down a workspace in order to save it.
    pub open spec fn save(self, workspace: WorkspaceView) -> TurnView {
        let snapshot = SnapshotView::start(workspace, self.self_pid);
        self.act(
            StateView::Snapshot(workspace.label, snapshot),
            ActionView::Call(snapshot.request()),
        )
    }

    /// Closes a workspace.
    pub open spec fn close(self, workspace: WorkspaceView, again: bool) -> TurnView {
        self.act(
            StateView::Close(ClosingView::start(workspace, self.self_pid), again),
            ActionView::LoadDefinitions,
        )
    }

    /// Goes on with a restoration.
    pub open spec fn restoring(self, label: Text, step: RestoreStepView, again: bool) -> TurnView {
        match step {
            RestoreStepView::Ask(restore, request) => self.act(
                StateView::Restore(label, restore, again),
                ActionView::Call(request),
            ),
            RestoreStepView::Done => self.report("restored "@ + label, again),
            RestoreStepView::Failed(message) => self.finish(Err(message)),
        }
    }

    /// Shows the picker, unless there is nothing to choose from.
    pub open spec fn choose_among(
        self,
        definitions: Map<Text, DefinitionView>,
        workspaces: Seq<WorkspaceView>,
    ) -> TurnView {
        let rows = rows(definitions.dom(), workspaces);
        if rows.dom() == Set::<Text>::empty() {
            self.finish(Err("no saved or running workspaces"@))
        } else {
            self.act(
                StateView::Choose(definitions, workspaces),
                ActionView::Pick(listing(rows)),
            )
        }
    }

    /// Does what was chosen in the picker.
    pub open spec fn follow(self, pick: PickView) -> TurnView {
        match pick {
            PickView::Leave => self.finish(Ok(Seq::empty())),
            PickView::Close { workspace, again } => self.close(workspace, again),
            PickView::Restore { definition, again } => self.restoring(
                definition.label,
                RestoreView::begin(definition, !again),
                again,
            ),
            PickView::Missing(message) => self.finish(Err(message)),
        }
    }

    /// How a command goes on after a failure. A workspace that is saved stays saved
    /// though the message about it cannot be shown; any other failure ends the command.
    pub open spec fn fail(self, message: Text) -> TurnView {
        match self.state {
            StateView::Notify(label) => TurnView {
                note: Some(NoteView::Warning("pen: notification failed: "@ + message)),
                ..self.finish(Ok("saved "@ + label + "\n"@))
            },
            StateView::Restore(_, restore, _) => self.finish(Err(restore.failure(message))),
            _ => self.finish(Err(message)),
        }
    }

    /// How a command goes on after an event.
    pub open spec fn step(self, event: EventView) -> TurnView {
        match (self.state, event) {
            (_, EventView::Failed(message)) => self.fail(message),
            (
                StateView::Pane(purpose),
                EventView::Reply(ReplyView::CurrentPane { workspace_id }),
            ) => self.act(
                StateView::Workspaces(purpose, workspace_id),
                ActionView::Call(RequestView::ListWorkspaces),
            ),
            (
                StateView::Workspaces(purpose, id),
                EventView::Reply(ReplyView::Workspaces(workspaces)),
            ) => match (with_id(workspaces, id), purpose) {
                (None, _) => self.finish(Err("current workspace "@ + id + " was not found"@)),
                (Some(workspace), Purpose::Save) => self.save(workspace),
                (Some(workspace), Purpose::Close) => self.close(workspace, false),
            },
            (StateView::Snapshot(label, snapshot), EventView::Reply(reply)) => match snapshot.step(
                reply,
            ) {
                SnapshotStepView::Ask(snapshot, request) => self.act(
                    StateView::Snapshot(label, snapshot),
                    ActionView::Call(request),
                ),
                SnapshotStepView::Done(definition) => self.act(
                    StateView::Write(label),
                    ActionView::SaveDefinition {
                        file_name: file_stem(definition.label) + ".toml"@,
                        definition: definition.saved(),
                    },
                ),
                SnapshotStepView::Failed(message) => self.finish(Err(message)),
            },
            (StateView::Write(label), EventView::Saved) => self.act(
                StateView::Notify(label),
                ActionView::Call(
                    RequestView::Notify { title: "セッション "@ + label + " を保存しました"@ },
                ),
            ),
            (StateView::Notify(label), EventView::Reply(ReplyView::Done)) => self.finish(
                Ok("saved "@ + label + "\n"@),
            ),
            (StateView::Close(closing, again), event) => match closing.step(event) {
                ClosingStepView::Act(closing, action) => self.act(
                    StateView::Close(closing, again),
                    action,
                ),
                ClosingStepView::Done(label) => self.report("closed "@ + label, again),
                ClosingStepView::Failed(message) => self.finish(Err(message)),
            },
            (StateView::Load, EventView::Definitions(stored)) => self.act(
                StateView::List(by_label(stored)),
                ActionView::Call(RequestView::ListWorkspaces),
            ),
            (
                StateView::List(definitions),
                EventView::Reply(ReplyView::Workspaces(workspaces)),
            ) => self.choose_among(definitions, workspaces),
            (StateView::Choose(_, _), EventView::Picked(None)) => self.finish(Ok(Seq::empty())),
            (
                StateView::Choose(definitions, workspaces),
                EventView::Picked(Some(output)),
            ) => self.follow(pick(output, definitions, workspaces)),
            (StateView::Restore(label, restore, again), EventView::Reply(reply)) => self.restoring(
                label,
                restore.step(reply),
                again,
            ),
            _ => self.fail(unexpected()),
        }
    }
}

/// How a command begins.
pub open spec fn begin(args: Seq<Text>, context: ContextView) -> TurnView {
    let session = SessionView { self_pid: context.self_pid, state: StateView::Finished };
    let current_pane = ActionView::Call(
        RequestView::CurrentPane { caller_pane_id: context.caller_pane_id },
    );
    if args.len() > 1 {
        session.finish(Err("too many arguments\n\n"@ + HELP@))
    } else if args.len() == 0 || args[0] == "help"@ || args[0] == "--help"@ || args[0] == "-h"@ {
        session.finish(Ok(HELP@))
    } else if args[0] == "save"@ {
        session.act(StateView::Pane(Purpose::Save), current_pane)
    } else if args[0] == "close"@ {
        session.act(StateView::Pane(Purpose::Close), current_pane)
    } else if args[0] == "picker"@ {
        session.act(StateView::Load, ActionView::LoadDefinitions)
    } else if args[0] == "version"@ || args[0] == "--version"@ || args[0] == "-V"@ {
        session.finish(Ok("pen "@ + context.version + "\n"@))
    } else {
        session.finish(Err("unknown command: "@ + args[0] + "\n\n"@ + HELP@))
    }
}

impl Turn {
    /// Goes on to wait for what `action` brings.
    fn act(self_pid: u64, state: State, action: Action) -> (result: Turn)
        ensures
            result.deep_view() == (TurnView {
                session: SessionView { self_pid, state: state.model() },
                note: None,
                action: action.deep_view(),
            }),
    {
        Turn { session: Session { self_pid, state }, note: None, action }
    }

    /// Ends the command with what is printed.
    fn success(self_pid: u64, output: String) -> (result: Turn)
        ensures
            forall|session: SessionView|
                session.self_pid == self_pid ==> result.deep_view()
                    == #[trigger] session.finish(Ok(output@)),
    {
        Turn::act(self_pid, State::Finished, Action::Finish(Ok(output)))
    }

    /// Ends the command with what went wrong.
    fn failure(self_pid: u64, message: String) -> (result: Turn)
        ensures
            forall|session: SessionView|
                session.self_pid == self_pid ==> result.deep_view()
                    == #[trigger] session.finish(Err(message@)),
    {
        Turn::act(self_pid, State::Finished, Action::Finish(Err(message)))
    }

    /// Reports that something is done, and opens the picker again or ends the command.
    fn report(self_pid: u64, line: String, again: bool) -> (result: Turn)
        ensures
            forall|session: SessionView|
                session.self_pid == self_pid ==> result.deep_view()
                    == #[trigger] session.report(line@, again),
    {
        if again {
            Turn {
                session: Session { self_pid, state: State::Load },
                note: Some(Note::Line(line)),
                action: Action::LoadDefinitions,
            }
        } else {
            let output = joined(line.as_str(), "\n");
            Turn::success(self_pid, output)
        }
    }

    /// Goes on with a restoration.
    fn restoring(self_pid: u64, label: String, step: RestoreStep, again: bool) -> (result: Turn)
        ensures
            forall|session: SessionView|
                session.self_pid == self_pid ==> result.deep_view() == #[trigger] session.restoring(
                    label@,
                    step.deep_view(),
                    again,
                ),
    {
        match step {
            RestoreStep::Ask(restore, request) => Turn::act(
                self_pid,
                State::Restore(label, restore, again),
                Action::Call(request),
            ),
            RestoreStep::Done => Turn::report(
                self_pid,
                joined("restored ", label.as_str()),
                again,
            ),
            RestoreStep::Failed(message) => Turn::failure(self_pid, message),
        }
    }

    /// Closes a workspace.
    fn close(self_pid: u64, workspace: Workspace, again: bool) -> (result: Turn)
        ensures
            forall|session: SessionView|
                session.self_pid == self_pid ==> result.deep_view() == #[trigger] session.close(
                    workspace.deep_view(),
                    again,
                ),
    {
        let (closing, action) = Closing::start(workspace, self_pid);
        Turn::act(self_pid, State::Close(closing, again), action)
    }
}

/// Begins the command that the arguments ask for.
pub fn run(args: Vec<String>, context: Context) -> (result: Turn)
    ensures
        result.deep_view() == begin(args.deep_view(), context.deep_view()),
{
    let self_pid = context.self_pid;
    if args.len() > 1 {
        return Turn::failure(self_pid, joined("too many arguments\n\n", HELP));
    }
    if args.len() == 0 {
        return Turn::success(self_pid, HELP.to_owned());
    }
    assert(args.deep_view()[0] == args@[0]@);
    let command = args[0].as_str();
    if same_text(command, "help") || same_text(command, "--help") || same_text(command, "-h") {
        Turn::success(self_pid, HELP.to_owned())
    } else if same_text(command, "save") {
        let request = Request::CurrentPane { caller_pane_id: context.caller_pane_id };
        Turn::act(self_pid, State::Pane(Purpose::Save), Action::Call(request))
    } else if same_text(command, "close") {
        let request = Request::CurrentPane { caller_pane_id: context.caller_pane_id };
        Turn::act(self_pid, State::Pane(Purpose::Close), Action::Call(request))
    } else if same_text(command, "picker") {
        Turn::act(self_pid, State::Load, Action::LoadDefinitions)
    } else if same_text(command, "version") || same_text(command, "--version") || same_text(
        command,
        "-V",
    ) {
        Turn::success(self_pid, framed("pen ", context.version.as_str(), "\n"))
    } else {
        let message = framed("unknown command: ", command, "\n\n");
        Turn::failure(self_pid, joined(message.as_str(), HELP))
    }
}

impl Session {
    /// How the command goes on after a failure.
    fn fail(self, message: String) -> (result: Turn)
        ensures
            result.deep_view() == self.deep_view().fail(message@),
    {
        let Session { self_pid, state } = self;
        match state {
            State::Notify(label) => {
                let warning = joined("pen: notification failed: ", message.as_str());
                Turn {
                    note: Some(Note::Warning(warning)),
                    ..Turn::success(self_pid, framed("saved ", label.as_str(), "\n"))
                }
            },
            State::Restore(_, restore, _) => Turn::failure(
                self_pid,
                restore.failure(message.as_str()),
            ),
            _ => Turn::failure(self_pid, message),
        }
    }

    /// How the command goes on after what came of the last action.
    pub fn step(self, event: Event) -> (result: Turn)
        ensures
            result.deep_view() == self.deep_view().step(event.deep_view()),
    {
        let Session { self_pid, state } = self;
        match (state, event) {
            (state, Event::Failed(message)) => (Session { self_pid, state }).fail(message),
            (State::Pane(purpose), Event::Reply(Reply::CurrentPane { workspace_id })) => Turn::act(
                self_pid,
                State::Workspaces(purpose, workspace_id),
                Action::Call(Request::ListWorkspaces),
            ),
            (State::Workspaces(purpose, id), Event::Reply(Reply::Workspaces(workspaces))) => {
                match (current_workspace(workspaces, id.as_str()), purpose) {
                    (None, _) => Turn::failure(
                        self_pid,
                        framed("current workspace ", id.as_str(), " was not found"),
                    ),
                    (Some(workspace), Purpose::Save) => {
                        let label = workspace.label.clone();
                        let (snapshot, request) = Snapshot::start(workspace, self_pid);
                        Turn::act(
                            self_pid,
                            State::Snapshot(label, snapshot),
                            Action::Call(request),
                        )
                    },
                    (Some(workspace), Purpose::Close) => Turn::close(self_pid, workspace, false),
                }
            },
            (State::Snapshot(label, snapshot), Event::Reply(reply)) => match snapshot.step(reply) {
                SnapshotStep::Ask(snapshot, request) => Turn::act(
                    self_pid,
                    State::Snapshot(label, snapshot),
                    Action::Call(request),
                ),
                SnapshotStep::Done(definition) => {
                    let file_name = definition_file(definition.label.as_str());
                    Turn::act(
                        self_pid,
                        State::Write(label),
                        Action::SaveDefinition { file_name, definition: definition.into_saved() },
                    )
                },
                SnapshotStep::Failed(message) => Turn::failure(self_pid, message),
            },
            (State::Write(label), Event::Saved) => {
                let title = framed("セッション ", label.as_str(), " を保存しました");
                Turn::act(self_pid, State::Notify(label), Action::Call(Request::Notify { title }))
            },
            (State::Notify(label), Event::Reply(Reply::Done)) => Turn::success(
                self_pid,
                framed("saved ", label.as_str(), "\n"),
            ),
            (State::Close(closing, again), event) => match closing.step(event) {
                ClosingStep::Act(closing, action) => Turn::act(
                    self_pid,
                    State::Close(closing, again),
                    action,
                ),
                ClosingStep::Done(label) => Turn::report(
                    self_pid,
                    joined("closed ", label.as_str()),
                    again,
                ),
                ClosingStep::Failed(message) => Turn::failure(self_pid, message),
            },
            (State::Load, Event::Definitions(stored)) => Turn::act(
                self_pid,
                State::List(load_definitions(stored)),
                Action::Call(Request::ListWorkspaces),
            ),
            (State::List(definitions), Event::Reply(Reply::Workspaces(workspaces))) => {
                match list_rows(&definitions, &workspaces) {
                    None => Turn::failure(self_pid, "no saved or running workspaces".to_owned()),
                    Some(lines) => Turn::act(
                        self_pid,
                        State::Choose(definitions, workspaces),
                        Action::Pick(lines),
                    ),
                }
            },
            (State::Choose(_, _), Event::Picked(None)) => Turn::success(self_pid, String::new()),
            (State::Choose(definitions, workspaces), Event::Picked(Some(output))) => {
                match choose_row(output.as_str(), definitions, workspaces) {
                    Pick::Leave => Turn::success(self_pid, String::new()),
                    Pick::Close { workspace, again } => Turn::close(self_pid, workspace, again),
                    Pick::Restore { definition, again } => {
                        let label = definition.label.clone();
                        let step = Restore::start(definition, !again);
                        Turn::restoring(self_pid, label, step, again)
                    },
                    Pick::Missing(message) => Turn::failure(self_pid, message),
                }
            },
            (State::Restore(label, restore, again), Event::Reply(reply)) => {
                let step = restore.step(reply);
                Turn::restoring(self_pid, label, step, again)
            },
            (state, _) => (Session { self_pid, state }).fail(unexpected_event()),
        }
    }
}

} // verus!
