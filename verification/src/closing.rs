//! Closing a workspace without losing what is not saved of it.

use crate::definition::{by_label, find_definition, saving_twice_changes_nothing, Definition, DefinitionView};
use crate::exchange::{unexpected, unexpected_event, Action, ActionView, Event, EventView};
use crate::files::{definition_file, file_stem};
use crate::protocol::{Reply, ReplyView, Request, RequestView, Workspace, WorkspaceView};
use crate::snapshot::{Snapshot, SnapshotStep, SnapshotStepView, SnapshotView};
use crate::text::{framed, is_blank, lowercase, lowered, quoted, quoted_text, same_text, trim, trimmed, trimming_cuts_the_margin, trimming_takes_all_margin, Margin, Text};
use vstd::prelude::*;

verus! {

/// What the user wants to be done with what is not saved.
#[derive(Debug, PartialEq, Eq, Clone, Copy)]
pub enum Choice {
    Keep,
    Discard,
    Cancel,
}

/// What has to happen before a workspace is closed.
#[derive(Debug, PartialEq, Eq)]
pub enum Guard {
    /// Find out what the workspace consists of.
    Snapshot,
    /// Ask the user.
    Ask(String),
    /// Save what the workspace consists of.
    Save,
    /// Nothing: it can be closed.
    Close,
    /// It must not be closed.
    Refuse(String),
}

/// The model of a `Guard`.
pub enum GuardView {
    Snapshot,
    Ask(Text),
    Save,
    Close,
    Refuse(Text),
}

impl DeepView for Guard {
    type V = GuardView;

    open spec fn deep_view(&self) -> GuardView {
        match *self {
            Guard::Snapshot => GuardView::Snapshot,
            Guard::Ask(prompt) => GuardView::Ask(prompt@),
            Guard::Save => GuardView::Save,
            Guard::Close => GuardView::Close,
            Guard::Refuse(message) => GuardView::Refuse(message@),
        }
    }
}

/// What an answer means. `differs` tells the question whether to update the saved
/// definition from the one whether to save the workspace. Whatever is not among the
/// choices cancels.
pub open spec fn chosen(answer: Text, differs: bool) -> Choice {
    let word = lowered(trimmed(answer, Margin::Blanks));
    if word == "d"@ || word == "discard"@ {
        Choice::Discard
    } else if differs && (word == "u"@ || word == "update"@) {
        Choice::Keep
    } else if !differs && (word == "s"@ || word == "save"@) {
        Choice::Keep
    } else {
        Choice::Cancel
    }
}

/// What the user is asked before an unsaved workspace is closed.
pub open spec fn unsaved_prompt(label: Text) -> Text {
    "Workspace "@ + quoted_text(label) + " is not saved. [s]ave, [d]iscard or [c]ancel? "@
}

/// What the user is asked before a workspace is closed that is no longer as it was
/// saved.
pub open spec fn differs_prompt(label: Text) -> Text {
    "Workspace "@ + quoted_text(label)
        + " differs from its saved definition. [u]pdate, [d]iscard or [c]ancel? "@
}

/// What has to happen before the workspace `label` is closed, given its saved
/// definition, what it consists of (where that is known) and what the user answered
/// (where they were asked). A workspace that is as it was saved closes without a
/// question; nothing else is discarded unless the user says so.
pub open spec fn guard(
    label: Text,
    saved: Option<DefinitionView>,
    live: Option<DefinitionView>,
    answer: Option<Text>,
) -> GuardView {
    match (saved, live, answer) {
        (None, _, None) => GuardView::Ask(unsaved_prompt(label)),
        (None, _, Some(answer)) => match chosen(answer, false) {
            Choice::Keep => if live is Some {
                GuardView::Save
            } else {
                GuardView::Snapshot
            },
            Choice::Discard => GuardView::Close,
            Choice::Cancel => GuardView::Refuse(
                "close cancelled; workspace has no saved definition"@,
            ),
        },
        (Some(_), None, _) => GuardView::Snapshot,
        (Some(saved), Some(live), answer) => if saved.saved() == live.saved() {
            GuardView::Close
        } else {
            match answer {
                None => GuardView::Ask(differs_prompt(label)),
                Some(answer) => match chosen(answer, true) {
                    Choice::Keep => GuardView::Save,
                    Choice::Discard => GuardView::Close,
                    Choice::Cancel => GuardView::Refuse(
                        "close cancelled; workspace differs from its saved definition"@,
                    ),
                },
            }
        },
    }
}

/// What an answer means.
pub fn read_choice(answer: &str, differs: bool) -> (result: Choice)
    ensures
        result == chosen(answer@, differs),
{
    let word = lowercase(trim(answer, Margin::Blanks).as_str());
    let word = word.as_str();
    if same_text(word, "d") || same_text(word, "discard") {
        Choice::Discard
    } else if differs && (same_text(word, "u") || same_text(word, "update")) {
        Choice::Keep
    } else if !differs && (same_text(word, "s") || same_text(word, "save")) {
        Choice::Keep
    } else {
        Choice::Cancel
    }
}

/// What has to happen before the workspace `label` is closed, given its saved
/// definition, what it consists of (where that is known) and what the user answered
/// (where they were asked). A workspace that is as it was saved closes without a
/// question; nothing else is discarded unless the user says so.
pub fn ensure_saved(
    label: &str,
    saved: &Option<Definition>,
    live: &Option<Definition>,
    answer: &Option<String>,
) -> (result: Guard)
    ensures
        result.deep_view() == guard(
            label@,
            saved.deep_view(),
            live.deep_view(),
            answer.deep_view(),
        ),
{
    match saved {
        None => match answer {
            None => Guard::Ask(
                framed(
                    "Workspace ",
                    quoted(label).as_str(),
                    " is not saved. [s]ave, [d]iscard or [c]ancel? ",
                ),
            ),
            Some(answer) => match read_choice(answer.as_str(), false) {
                Choice::Keep => if live.is_some() {
                    Guard::Save
                } else {
                    Guard::Snapshot
                },
                Choice::Discard => Guard::Close,
                Choice::Cancel => Guard::Refuse(
                    "close cancelled; workspace has no saved definition".to_owned(),
                ),
            },
        },
        Some(saved) => match live {
            None => Guard::Snapshot,
            Some(live) => if saved.same_saved(live) {
                Guard::Close
            } else {
                match answer {
                    None => Guard::Ask(
                        framed(
                            "Workspace ",
                            quoted(label).as_str(),
                            " differs from its saved definition. [u]pdate, [d]iscard or [c]ancel? ",
                        ),
                    ),
                    Some(answer) => match read_choice(answer.as_str(), true) {
                        Choice::Keep => Guard::Save,
                        Choice::Discard => Guard::Close,
                        Choice::Cancel => Guard::Refuse(
                            "close cancelled; workspace differs from its saved definition".to_owned(),
                        ),
                    },
                }
            },
        },
    }
}

/// What the closing of a workspace is waiting for.
#[derive(Debug, PartialEq, Eq)]
enum Stage {
    /// The saved definitions.
    Look,
    /// What the workspace consists of.
    Snapshot { saved: Option<Definition>, answer: Option<String>, snapshot: Snapshot },
    /// The user's answer.
    Ask { saved: Option<Definition>, live: Option<Definition> },
    /// The file with the definition.
    Save,
    /// herdr's word that the workspace is closed.
    Close,
}

/// A workspace that is being closed.
#[derive(Debug, PartialEq, Eq)]
pub struct Closing {
    workspace: Workspace,
    self_pid: u64,
    stage: Stage,
}

/// Where the closing of a workspace stands.
#[derive(Debug, PartialEq, Eq)]
pub enum ClosingStep {
    /// Something has to be done.
    Act(Closing, Action),
    /// The workspace with this label is closed.
    Done(String),
    /// The workspace is not closed.
    Failed(String),
}

/// The model of what the closing of a workspace is waiting for.
pub enum ClosingStageView {
    Look,
    Snapshot { saved: Option<DefinitionView>, answer: Option<Text>, snapshot: SnapshotView },
    Ask { saved: Option<DefinitionView>, live: Option<DefinitionView> },
    Save,
    Close,
}

/// The model of a `Closing`.
pub struct ClosingView {
    pub workspace: WorkspaceView,
    pub self_pid: u64,
    pub stage: ClosingStageView,
}

/// The model of a `ClosingStep`.
pub enum ClosingStepView {
    Act(ClosingView, ActionView),
    Done(Text),
    Failed(Text),
}

impl ClosingView {
    /// A workspace of which it is not known whether it is saved.
    pub open spec fn start(workspace: WorkspaceView, self_pid: u64) -> ClosingView {
        ClosingView { workspace, self_pid, stage: ClosingStageView::Look }
    }

    /// Tells herdr to close the workspace.
    pub open spec fn close(self) -> ClosingStepView {
        ClosingStepView::Act(
            ClosingView { stage: ClosingStageView::Close, ..self },
            ActionView::Call(RequestView::CloseWorkspace { workspace_id: self.workspace.id }),
        )
    }

    /// Does what the guard asks for.
    pub open spec fn decide(
        self,
        saved: Option<DefinitionView>,
        live: Option<DefinitionView>,
        answer: Option<Text>,
    ) -> ClosingStepView {
        match guard(self.workspace.label, saved, live, answer) {
            GuardView::Snapshot => {
                let snapshot = SnapshotView::start(self.workspace, self.self_pid);
                ClosingStepView::Act(
                    ClosingView {
                        stage: ClosingStageView::Snapshot { saved, answer, snapshot },
                        ..self
                    },
                    ActionView::Call(snapshot.request()),
                )
            },
            GuardView::Ask(prompt) => ClosingStepView::Act(
                ClosingView { stage: ClosingStageView::Ask { saved, live }, ..self },
                ActionView::Ask(prompt),
            ),
            GuardView::Save => ClosingStepView::Act(
                ClosingView { stage: ClosingStageView::Save, ..self },
                ActionView::SaveDefinition {
                    file_name: file_stem(live->0.label) + ".toml"@,
                    definition: live->0.saved(),
                },
            ),
            GuardView::Close => self.close(),
            GuardView::Refuse(message) => ClosingStepView::Failed(message),
        }
    }

    /// What follows on an event.
    pub open spec fn step(self, event: EventView) -> ClosingStepView {
        match (self.stage, event) {
            (_, EventView::Failed(message)) => ClosingStepView::Failed(message),
            (ClosingStageView::Look, EventView::Definitions(stored)) => self.decide(
                by_label(stored).get(self.workspace.label),
                None,
                None,
            ),
            (
                ClosingStageView::Snapshot { saved, answer, snapshot },
                EventView::Reply(reply),
            ) => match snapshot.step(reply) {
                SnapshotStepView::Ask(snapshot, request) => ClosingStepView::Act(
                    ClosingView {
                        stage: ClosingStageView::Snapshot { saved, answer, snapshot },
                        ..self
                    },
                    ActionView::Call(request),
                ),
                SnapshotStepView::Done(live) => self.decide(saved, Some(live), answer),
                SnapshotStepView::Failed(message) => ClosingStepView::Failed(message),
            },
            (ClosingStageView::Ask { saved, live }, EventView::Answer(line)) => self.decide(
                saved,
                live,
                Some(line),
            ),
            (ClosingStageView::Save, EventView::Saved) => self.close(),
            (ClosingStageView::Close, EventView::Reply(ReplyView::Done)) => ClosingStepView::Done(
                self.workspace.label,
            ),
            _ => ClosingStepView::Failed(unexpected()),
        }
    }
}

impl Stage {
    spec fn model(self) -> ClosingStageView {
        match self {
            Stage::Look => ClosingStageView::Look,
            Stage::Snapshot { saved, answer, snapshot } => ClosingStageView::Snapshot {
                saved: saved.deep_view(),
                answer: answer.deep_view(),
                snapshot: snapshot.deep_view(),
            },
            Stage::Ask { saved, live } => ClosingStageView::Ask {
                saved: saved.deep_view(),
                live: live.deep_view(),
            },
            Stage::Save => ClosingStageView::Save,
            Stage::Close => ClosingStageView::Close,
        }
    }
}

impl DeepView for Closing {
    type V = ClosingView;

    closed spec fn deep_view(&self) -> ClosingView {
        ClosingView {
            workspace: self.workspace.deep_view(),
            self_pid: self.self_pid,
            stage: self.stage.model(),
        }
    }
}

impl DeepView for ClosingStep {
    type V = ClosingStepView;

    open spec fn deep_view(&self) -> ClosingStepView {
        match *self {
            ClosingStep::Act(closing, action) => ClosingStepView::Act(
                closing.deep_view(),
                action.deep_view(),
            ),
            ClosingStep::Done(label) => ClosingStepView::Done(label@),
            ClosingStep::Failed(message) => ClosingStepView::Failed(message@),
        }
    }
}

impl Closing {
    /// Starts to close a workspace, by looking for its saved definition.
    pub fn start(workspace: Workspace, self_pid: u64) -> (result: (Closing, Action))
        ensures
            result.0.deep_view() == ClosingView::start(workspace.deep_view(), self_pid),
            result.1.deep_view() == ActionView::LoadDefinitions,
    {
        (Closing { workspace, self_pid, stage: Stage::Look }, Action::LoadDefinitions)
    }

    /// Tells herdr to close the workspace.
    fn close(workspace: Workspace, self_pid: u64) -> (result: ClosingStep)
        ensures
            forall|stage: ClosingStageView|
                result.deep_view() == #[trigger] (ClosingView {
                    workspace: workspace.deep_view(),
                    self_pid,
                    stage,
                }).close(),
    {
        let workspace_id = workspace.id.clone();
        ClosingStep::Act(
            Closing { workspace, self_pid, stage: Stage::Close },
            Action::Call(Request::CloseWorkspace { workspace_id }),
        )
    }

    /// Does what the guard asks for.
    fn decide(
        workspace: Workspace,
        self_pid: u64,
        saved: Option<Definition>,
        live: Option<Definition>,
        answer: Option<String>,
    ) -> (result: ClosingStep)
        ensures
            forall|stage: ClosingStageView|
                result.deep_view() == #[trigger] (ClosingView {
                    workspace: workspace.deep_view(),
                    self_pid,
                    stage,
                }).decide(saved.deep_view(), live.deep_view(), answer.deep_view()),
    {
        match ensure_saved(workspace.label.as_str(), &saved, &live, &answer) {
            Guard::Snapshot => {
                let (snapshot, request) = Snapshot::start(workspace.duplicate(), self_pid);
                ClosingStep::Act(
                    Closing {
                        workspace,
                        self_pid,
                        stage: Stage::Snapshot { saved, answer, snapshot },
                    },
                    Action::Call(request),
                )
            },
            Guard::Ask(prompt) => ClosingStep::Act(
                Closing { workspace, self_pid, stage: Stage::Ask { saved, live } },
                Action::Ask(prompt),
            ),
            Guard::Save => match live {
                Some(definition) => {
                    let file_name = definition_file(definition.label.as_str());
                    ClosingStep::Act(
                        Closing { workspace, self_pid, stage: Stage::Save },
                        Action::SaveDefinition { file_name, definition: definition.into_saved() },
                    )
                },
                None => ClosingStep::Failed(unexpected_event()),
            },
            Guard::Close => Closing::close(workspace, self_pid),
            Guard::Refuse(message) => ClosingStep::Failed(message),
        }
    }

    /// What follows on an event.
    pub fn step(self, event: Event) -> (result: ClosingStep)
        ensures
            result.deep_view() == self.deep_view().step(event.deep_view()),
    {
        let Closing { workspace, self_pid, stage } = self;
        match (stage, event) {
            (_, Event::Failed(message)) => ClosingStep::Failed(message),
            (Stage::Look, Event::Definitions(stored)) => {
                let saved = find_definition(stored, workspace.label.as_str());
                Closing::decide(workspace, self_pid, saved, None, None)
            },
            (Stage::Snapshot { saved, answer, snapshot }, Event::Reply(reply)) => {
                match snapshot.step(reply) {
                    SnapshotStep::Ask(snapshot, request) => ClosingStep::Act(
                        Closing {
                            workspace,
                            self_pid,
                            stage: Stage::Snapshot { saved, answer, snapshot },
                        },
                        Action::Call(request),
                    ),
                    SnapshotStep::Done(live) => Closing::decide(
                        workspace,
                        self_pid,
                        saved,
                        Some(live),
                        answer,
                    ),
                    SnapshotStep::Failed(message) => ClosingStep::Failed(message),
                }
            },
            (Stage::Ask { saved, live }, Event::Answer(line)) => Closing::decide(
                workspace,
                self_pid,
                saved,
                live,
                Some(line),
            ),
            (Stage::Save, Event::Saved) => Closing::close(workspace, self_pid),
            (Stage::Close, Event::Reply(Reply::Done)) => ClosingStep::Done(workspace.label),
            _ => ClosingStep::Failed(unexpected_event()),
        }
    }
}

/// A workspace is closed as it stands only where it is as it was saved, or where the
/// user answered to discard what is not saved.
pub proof fn nothing_is_discarded_silently(
    label: Text,
    saved: Option<DefinitionView>,
    live: Option<DefinitionView>,
    answer: Option<Text>,
)
    requires
        guard(label, saved, live, answer) is Close,
    ensures
        (saved is Some && live is Some && saved->0.saved() == live->0.saved()) || (answer is Some
            && chosen(answer->0, saved is Some) is Discard),
{
}

/// A workspace that is as it was saved is closed without a question.
pub proof fn unchanged_workspace_closes(
    label: Text,
    saved: DefinitionView,
    live: DefinitionView,
    answer: Option<Text>,
)
    requires
        saved.saved() == live.saved(),
    ensures
        guard(label, Some(saved), Some(live), answer) is Close,
{
}

/// The user is asked exactly where the workspace is not saved, or known not to be as
/// it was saved, and they have not answered yet.
pub proof fn asked_only_where_something_is_lost(
    label: Text,
    saved: Option<DefinitionView>,
    live: Option<DefinitionView>,
    answer: Option<Text>,
)
    ensures
        guard(label, saved, live, answer) is Ask <==> answer is None && (saved is None || (live is Some
            && saved->0.saved() != live->0.saved())),
{
}

/// An answer that is none of the offered words, the empty one included, keeps a
/// workspace open of which something would be lost.
pub proof fn doubt_keeps_the_workspace_open(
    label: Text,
    saved: Option<DefinitionView>,
    live: Option<DefinitionView>,
    answer: Text,
)
    requires
        chosen(answer, saved is Some) is Cancel,
        saved is Some ==> live is Some && saved->0.saved() != live->0.saved(),
    ensures
        guard(label, saved, live, Some(answer)) is Refuse,
{
}

/// A workspace that is saved and then closed, without a change in between, closes
/// without a question: saving a definition once more changes nothing.
pub proof fn saved_workspace_closes(label: Text, live: DefinitionView, answer: Option<Text>)
    ensures
        guard(label, Some(live.saved()), Some(live), answer) is Close,
{
    saving_twice_changes_nothing(live);
}

impl ClosingView {
    /// Whether the closing goes by the saved definition `kept`: a workspace that is
    /// not saved is taken down only for a user who wants it saved, and one that is
    /// saved is asked about only once it is found to differ.
    pub open spec fn follows(self, kept: Option<DefinitionView>) -> bool {
        match self.stage {
            ClosingStageView::Look => true,
            ClosingStageView::Snapshot { saved, answer, .. } => {
                &&& saved == kept
                &&& match kept {
                    None => answer is Some && chosen(answer->0, false) is Keep,
                    Some(_) => answer is None,
                }
            },
            ClosingStageView::Ask { saved, live } => {
                &&& saved == kept
                &&& match kept {
                    None => live is None,
                    Some(definition) => live is Some && definition.saved() != live->0.saved(),
                }
            },
            ClosingStageView::Save => true,
            ClosingStageView::Close => true,
        }
    }

    /// Whether what has just happened lets the workspace be closed: its definition is
    /// written; or the user discards it; or it turns out to be as it was saved.
    pub open spec fn cleared(self, kept: Option<DefinitionView>, event: EventView) -> bool {
        match (self.stage, event) {
            (ClosingStageView::Save, EventView::Saved) => true,
            (ClosingStageView::Ask { .. }, EventView::Answer(line)) => chosen(line, kept is Some)
                is Discard,
            (
                ClosingStageView::Snapshot { snapshot, .. },
                EventView::Reply(reply),
            ) => match snapshot.step(reply) {
                SnapshotStepView::Done(live) => kept is Some && kept->0.saved() == live.saved(),
                _ => false,
            },
            _ => false,
        }
    }
}

/// The saved definition that a closing goes by is the one that the files hold under
/// the workspace's label, to the end.
pub proof fn closing_goes_by_the_files(
    closing: ClosingView,
    kept: Option<DefinitionView>,
    event: EventView,
)
    requires
        closing.follows(kept),
        closing.stage is Look ==> (event matches EventView::Definitions(stored) ==> kept == by_label(
            stored,
        ).get(closing.workspace.label)),
    ensures
        match closing.step(event) {
            ClosingStepView::Act(next, _) => next.follows(kept) && next.workspace
                == closing.workspace,
            _ => true,
        },
{
}

/// herdr is told to close a workspace only once that is cleared, and then only the
/// workspace in question.
pub proof fn closed_only_once_cleared(
    closing: ClosingView,
    kept: Option<DefinitionView>,
    event: EventView,
    workspace_id: Text,
)
    requires
        closing.follows(kept),
        closing.stage is Look ==> (event matches EventView::Definitions(stored) ==> kept == by_label(
            stored,
        ).get(closing.workspace.label)),
        closing.step(event) matches ClosingStepView::Act(
            _,
            ActionView::Call(RequestView::CloseWorkspace { workspace_id: id }),
        ) && id == workspace_id,
    ensures
        closing.cleared(kept, event),
        workspace_id == closing.workspace.id,
{
}

/// Once it is cleared, the workspace is closed.
pub proof fn cleared_workspace_is_closed(
    closing: ClosingView,
    kept: Option<DefinitionView>,
    event: EventView,
)
    requires
        closing.follows(kept),
        closing.cleared(kept, event),
    ensures
        closing.step(event) == closing.close(),
{
}

/// What is written on the way is what is saved of what the workspace was found to
/// consist of, under the file name of its label; and that only for a user who wants it
/// saved.
pub proof fn kept_only_if_wanted(
    closing: ClosingView,
    kept: Option<DefinitionView>,
    event: EventView,
    name: Text,
    definition: DefinitionView,
)
    requires
        closing.follows(kept),
        closing.stage is Look ==> (event matches EventView::Definitions(stored) ==> kept == by_label(
            stored,
        ).get(closing.workspace.label)),
        closing.step(event) matches ClosingStepView::Act(
            _,
            ActionView::SaveDefinition { file_name, definition: written },
        ) && file_name == name && written == definition,
    ensures
        name == file_stem(definition.label) + ".toml"@,
        match (closing.stage, event) {
            (ClosingStageView::Ask { live, .. }, EventView::Answer(line)) => live is Some
                && definition == live->0.saved() && chosen(line, true) is Keep,
            (
                ClosingStageView::Snapshot { answer, snapshot, .. },
                EventView::Reply(reply),
            ) => snapshot.step(reply) is Done && definition == snapshot.step(reply)->Done_0.saved()
                && answer is Some && chosen(answer->0, false) is Keep,
            _ => false,
        },
{
}

/// What an answer says, once the white space around it and its capitals are left aside,
/// decides alone: it discards where it says so, it saves or updates where that was asked
/// and it says so, and in any other case it cancels.
pub proof fn answer_means_what_it_says(answer: Text, differs: bool)
    ensures
        ({
            let word = lowered(trimmed(answer, Margin::Blanks));
            let discard = word == "d"@ || word == "discard"@;
            let update = word == "u"@ || word == "update"@;
            let save = word == "s"@ || word == "save"@;
            &&& chosen(answer, differs) is Discard <==> discard
            &&& chosen(answer, differs) is Keep <==> if differs {
                update
            } else {
                save
            }
            &&& word == "c"@ || word == "cancel"@ || word.len() == 0 ==> chosen(answer, differs)
                is Cancel
        }),
{
    reveal_strlit("d");
    reveal_strlit("discard");
    reveal_strlit("u");
    reveal_strlit("update");
    reveal_strlit("s");
    reveal_strlit("save");
    reveal_strlit("c");
    reveal_strlit("cancel");
    assert("d"@[0] == 'd' && "discard"@[0] == 'd' && "u"@[0] == 'u' && "update"@[0] == 'u');
    assert("s"@[0] == 's' && "save"@[0] == 's' && "c"@[0] == 'c' && "cancel"@[0] == 'c');
    assert("d"@.len() == 1 && "discard"@.len() == 7 && "u"@.len() == 1 && "update"@.len() == 6);
    assert("s"@.len() == 1 && "save"@.len() == 4);
}

/// The words that an answer is made of, in small letters.
pub open spec fn is_offered(word: Text, differs: bool) -> bool {
    ||| word == "d"@
    ||| word == "discard"@
    ||| differs && (word == "u"@ || word == "update"@)
    ||| !differs && (word == "s"@ || word == "save"@)
}

/// An answer does something only where it is one of the offered words, written in small
/// or capital letters, with nothing but white space around it.
pub proof fn only_offered_words_count(answer: Text, differs: bool) -> (ends: (int, int))
    ensures
        0 <= ends.0 <= ends.1 <= answer.len(),
        forall|i: int| 0 <= i < ends.0 ==> is_blank(#[trigger] answer[i]),
        forall|i: int| ends.1 <= i < answer.len() ==> is_blank(#[trigger] answer[i]),
        !(chosen(answer, differs) is Cancel) <==> is_offered(
            lowered(answer.subrange(ends.0, ends.1)),
            differs,
        ),
{
    let ends = trimming_cuts_the_margin(answer, Margin::Blanks);
    assert forall|i: int| 0 <= i < ends.0 implies is_blank(#[trigger] answer[i]) by {
        assert(Margin::Blanks.has(answer[i]));
    }
    assert forall|i: int| ends.1 <= i < answer.len() implies is_blank(#[trigger] answer[i]) by {
        assert(Margin::Blanks.has(answer[i]));
    }
    ends
}

/// What an answer means does not depend on the white space around it.
pub proof fn white_space_does_not_count(head: Text, word: Text, tail: Text, differs: bool)
    requires
        forall|i: int| 0 <= i < head.len() ==> is_blank(#[trigger] head[i]),
        forall|i: int| 0 <= i < tail.len() ==> is_blank(#[trigger] tail[i]),
        word.len() > 0 ==> !is_blank(word[0]) && !is_blank(word.last()),
    ensures
        chosen(head + word + tail, differs) == chosen(word, differs),
{
    assert forall|i: int| 0 <= i < head.len() implies Margin::Blanks.has(#[trigger] head[i]) by {
        assert(is_blank(head[i]));
    }
    assert forall|i: int| 0 <= i < tail.len() implies Margin::Blanks.has(#[trigger] tail[i]) by {
        assert(is_blank(tail[i]));
    }
    trimming_takes_all_margin(head, word, tail, Margin::Blanks);
    let none = Text::empty();
    trimming_takes_all_margin(none, word, none, Margin::Blanks);
    assert(none + word + none =~= word);
}

/// The user's word is followed: what is to be kept is saved, once it is known what the
/// workspace consists of; what is to be discarded is closed; and anything else is refused
/// by what would be lost.
pub proof fn choice_is_followed(
    label: Text,
    saved: Option<DefinitionView>,
    live: Option<DefinitionView>,
    answer: Text,
)
    requires
        saved is Some ==> live is Some && saved->0.saved() != live->0.saved(),
    ensures
        guard(label, saved, live, Some(answer)) == match chosen(answer, saved is Some) {
            Choice::Keep => if live is Some {
                GuardView::Save
            } else {
                GuardView::Snapshot
            },
            Choice::Discard => GuardView::Close,
            Choice::Cancel => GuardView::Refuse(
                if saved is Some {
                    "close cancelled; workspace differs from its saved definition"@
                } else {
                    "close cancelled; workspace has no saved definition"@
                },
            ),
        },
{
}

/// Whether a saved workspace has changed is always looked at first.
pub proof fn saved_workspace_is_looked_at_first(
    label: Text,
    saved: DefinitionView,
    answer: Option<Text>,
)
    ensures
        guard(label, Some(saved), None, answer) is Snapshot,
{
}

/// Each of the questions names the workspace and offers three ways on; it is about what
/// would be lost.
pub proof fn questions_name_the_workspace(
    label: Text,
    saved: Option<DefinitionView>,
    live: Option<DefinitionView>,
    prompt: Text,
)
    requires
        guard(label, saved, live, None) == GuardView::Ask(prompt),
    ensures
        prompt == "Workspace "@ + quoted_text(label) + if saved is Some {
            " differs from its saved definition. [u]pdate, [d]iscard or [c]ancel? "@
        } else {
            " is not saved. [s]ave, [d]iscard or [c]ancel? "@
        },
{
}

} // verus!
