//! Building a workspace from its definition.

use crate::definition::{Definition, DefinitionView, TabDefinition, TabView};
use crate::protocol::{Reply, ReplyView, Request, RequestView, Target, TargetView};
use crate::text::{framed, joined, quoted, quoted_text, Text};
use vstd::prelude::*;

verus! {

/// What a restoration is waiting for.
#[derive(Debug, PartialEq, Eq)]
enum Stage {
    /// The new workspace.
    Create,
    /// A tab of the workspace with this id.
    Fill(String),
    /// The selection of the tab that was active.
    Select(String),
    /// The focus on the workspace.
    Focus,
}

/// A workspace that is being restored.
#[derive(Debug, PartialEq, Eq)]
pub struct Restore {
    label: String,
    pending: Vec<TabDefinition>,
    active: usize,
    take_focus: bool,
    restored: Vec<String>,
    stage: Stage,
}

/// Where a restoration stands.
#[derive(Debug, PartialEq, Eq)]
pub enum RestoreStep {
    /// herdr has to do something more.
    Ask(Restore, Request),
    /// The workspace is complete.
    Done,
    /// The workspace cannot be restored.
    Failed(String),
}

/// The model of a restoration's stage.
pub enum StageView {
    Create,
    Fill(Text),
    Select(Text),
    Focus,
}

/// The model of a `Restore`.
pub struct RestoreView {
    pub label: Text,
    /// The tabs that have not been sent yet.
    pub pending: Seq<TabView>,
    /// Which of the tabs was active.
    pub active: nat,
    /// Whether the workspace gets the focus once it is complete.
    pub take_focus: bool,
    /// The tabs that have been built.
    pub restored: Seq<Text>,
    pub stage: StageView,
}

/// The model of a `RestoreStep`.
pub enum RestoreStepView {
    Ask(RestoreView, RequestView),
    Done,
    Failed(Text),
}

/// The first tab that is marked as active, or the first tab where none is.
pub open spec fn active_tab(tabs: Seq<TabView>) -> nat {
    if first_active(tabs) < tabs.len() {
        first_active(tabs)
    } else {
        0
    }
}

/// The number of tabs in front of the first one that is marked as active.
pub open spec fn first_active(tabs: Seq<TabView>) -> nat
    decreases tabs.len(),
{
    if tabs.len() == 0 || tabs[0].active {
        0
    } else {
        1 + first_active(tabs.drop_first())
    }
}

impl RestoreView {
    /// A restoration of which nothing has been done yet.
    pub open spec fn start(definition: DefinitionView, take_focus: bool) -> RestoreView {
        RestoreView {
            label: definition.label,
            pending: definition.tabs,
            active: active_tab(definition.tabs),
            take_focus,
            restored: seq![],
            stage: StageView::Create,
        }
    }

    /// How the first request goes out, unless there is nothing to restore.
    pub open spec fn begin(definition: DefinitionView, take_focus: bool) -> RestoreStepView {
        if definition.tabs.len() == 0 {
            RestoreStepView::Failed(
                "definition "@ + quoted_text(definition.label) + " has no tabs"@,
            )
        } else {
            RestoreStepView::Ask(
                RestoreView::start(definition, take_focus),
                RequestView::CreateWorkspace { label: definition.label },
            )
        }
    }

    /// Sends the next tab.
    pub open spec fn fill(self, target: TargetView, workspace_id: Text) -> RestoreStepView {
        RestoreStepView::Ask(
            RestoreView {
                pending: self.pending.drop_first(),
                stage: StageView::Fill(workspace_id),
                ..self
            },
            RequestView::ApplyLayout {
                root: self.pending[0].root,
                target,
                tab_label: self.pending[0].label,
            },
        )
    }

    /// What a failure is reported as. Once the workspace exists, it is left behind
    /// incomplete.
    pub open spec fn failure(self, message: Text) -> Text {
        match self.stage {
            StageView::Create => message,
            _ => message + (" (restore left an incomplete workspace "@ + quoted_text(self.label)
                + "; close it manually)"@),
        }
    }

    /// The method that the restoration is waiting for.
    pub open spec fn method(self) -> Text {
        match self.stage {
            StageView::Create => "workspace.create"@,
            StageView::Fill(_) => "layout.apply"@,
            StageView::Select(_) => "tab.focus"@,
            StageView::Focus => "workspace.focus"@,
        }
    }

    /// What follows on a reply. The first tab replaces the one that the new workspace
    /// comes with; the others are appended. Only when all tabs are there is the active
    /// one selected, and then the workspace brought to the front where that is wanted.
    pub open spec fn step(self, reply: ReplyView) -> RestoreStepView {
        match (self.stage, reply) {
            (StageView::Create, ReplyView::Created { workspace_id, tab_id }) => self.fill(
                TargetView::Tab(tab_id),
                workspace_id,
            ),
            (StageView::Fill(workspace_id), ReplyView::Applied { tab_id }) => {
                let next = RestoreView { restored: self.restored.push(tab_id), ..self };
                if self.pending.len() > 0 {
                    next.fill(TargetView::Workspace(workspace_id), workspace_id)
                } else {
                    RestoreStepView::Ask(
                        RestoreView { stage: StageView::Select(workspace_id), ..next },
                        RequestView::FocusTab { tab_id: next.restored[self.active as int] },
                    )
                }
            },
            (StageView::Select(workspace_id), ReplyView::Done) => if self.take_focus {
                RestoreStepView::Ask(
                    RestoreView { stage: StageView::Focus, ..self },
                    RequestView::FocusWorkspace { workspace_id },
                )
            } else {
                RestoreStepView::Done
            },
            (StageView::Focus, ReplyView::Done) => RestoreStepView::Done,
            _ => RestoreStepView::Failed(
                self.failure("herdr "@ + self.method() + " sent an unexpected reply"@),
            ),
        }
    }
}

impl Stage {
    spec fn model(self) -> StageView {
        match self {
            Stage::Create => StageView::Create,
            Stage::Fill(id) => StageView::Fill(id@),
            Stage::Select(id) => StageView::Select(id@),
            Stage::Focus => StageView::Focus,
        }
    }
}

impl DeepView for Restore {
    type V = RestoreView;

    closed spec fn deep_view(&self) -> RestoreView {
        RestoreView {
            label: self.label@,
            pending: self.pending.deep_view(),
            active: self.active as nat,
            take_focus: self.take_focus,
            restored: self.restored.deep_view(),
            stage: self.stage.model(),
        }
    }
}

impl DeepView for RestoreStep {
    type V = RestoreStepView;

    open spec fn deep_view(&self) -> RestoreStepView {
        match *self {
            RestoreStep::Ask(restore, request) => RestoreStepView::Ask(
                restore.deep_view(),
                request.deep_view(),
            ),
            RestoreStep::Done => RestoreStepView::Done,
            RestoreStep::Failed(message) => RestoreStepView::Failed(message@),
        }
    }
}

/// The first tab that is marked as active, or the first tab where none is.
fn find_active(tabs: &Vec<TabDefinition>) -> (result: usize)
    ensures
        result == active_tab(tabs.deep_view()),
        tabs@.len() > 0 ==> result < tabs@.len(),
{
    let ghost all = tabs.deep_view();
    let mut i: usize = 0;
    assert(all.skip(0) =~= all);
    while i < tabs.len() && !tabs[i].active
        invariant
            all == tabs.deep_view(),
            i <= tabs@.len(),
            first_active(all) == i + first_active(all.skip(i as int)),
        decreases tabs@.len() - i,
    {
        assert(all.skip(i as int).drop_first() =~= all.skip(i + 1));
        i = i + 1;
    }
    if i < tabs.len() {
        i
    } else {
        0
    }
}

impl Restore {
    #[verifier::type_invariant]
    spec fn is_consistent(self) -> bool {
        match self.stage {
            Stage::Create => self.active < self.pending@.len() && self.restored@.len() == 0,
            Stage::Fill(_) => self.active < self.restored@.len() + 1 + self.pending@.len(),
            _ => true,
        }
    }

    /// Starts to restore a workspace.
    pub fn start(definition: Definition, take_focus: bool) -> (result: RestoreStep)
        ensures
            result.deep_view() == RestoreView::begin(definition.deep_view(), take_focus),
    {
        if definition.tabs.len() == 0 {
            return RestoreStep::Failed(
                framed("definition ", quoted(definition.label.as_str()).as_str(), " has no tabs"),
            );
        }
        let active = find_active(&definition.tabs);
        let label = definition.label.clone();
        let restore = Restore {
            label: definition.label,
            pending: definition.tabs,
            active,
            take_focus,
            restored: Vec::new(),
            stage: Stage::Create,
        };
        assert(restore.restored.deep_view() =~= Seq::<Text>::empty());
        RestoreStep::Ask(restore, Request::CreateWorkspace { label })
    }

    /// Sends the next tab.
    fn fill(
        label: String,
        pending: Vec<TabDefinition>,
        active: usize,
        take_focus: bool,
        restored: Vec<String>,
        target: Target,
        workspace_id: String,
    ) -> (result: RestoreStep)
        requires
            pending@.len() > 0,
            active < restored@.len() + pending@.len(),
        ensures
            forall|stage: StageView|
                result.deep_view() == #[trigger] (RestoreView {
                    label: label@,
                    pending: pending.deep_view(),
                    active: active as nat,
                    take_focus,
                    restored: restored.deep_view(),
                    stage,
                }).fill(target.deep_view(), workspace_id@),
    {
        let mut pending = pending;
        let ghost before = pending.deep_view();
        let tab = pending.remove(0);
        proof {
            assert(pending.deep_view() =~= before.drop_first());
            assert(before[0] == tab.deep_view());
        }
        let request = Request::ApplyLayout { root: tab.root, target, tab_label: tab.label };
        let restore = Restore {
            label,
            pending,
            active,
            take_focus,
            restored,
            stage: Stage::Fill(workspace_id),
        };
        RestoreStep::Ask(restore, request)
    }

    /// What a failure is reported as. Once the workspace exists, it is left behind
    /// incomplete.
    pub fn failure(&self, message: &str) -> (result: String)
        ensures
            result@ == self.deep_view().failure(message@),
    {
        match self.stage {
            Stage::Create => message.to_owned(),
            _ => {
                let hint = framed(
                    " (restore left an incomplete workspace ",
                    quoted(self.label.as_str()).as_str(),
                    "; close it manually)",
                );
                joined(message, hint.as_str())
            },
        }
    }

    /// What follows on a reply of herdr.
    pub fn step(self, reply: Reply) -> (result: RestoreStep)
        ensures
            result.deep_view() == self.deep_view().step(reply.deep_view()),
    {
        proof {
            use_type_invariant(&self);
        }
        let method = match self.stage {
            Stage::Create => "workspace.create",
            Stage::Fill(_) => "layout.apply",
            Stage::Select(_) => "tab.focus",
            Stage::Focus => "workspace.focus",
        };
        let unexpected = self.failure(
            framed("herdr ", method, " sent an unexpected reply").as_str(),
        );
        let Restore { label, pending, active, take_focus, restored, stage } = self;
        match (stage, reply) {
            (Stage::Create, Reply::Created { workspace_id, tab_id }) => Restore::fill(
                label,
                pending,
                active,
                take_focus,
                restored,
                Target::Tab(tab_id),
                workspace_id,
            ),
            (Stage::Fill(workspace_id), Reply::Applied { tab_id }) => {
                let mut restored = restored;
                let ghost before = restored.deep_view();
                restored.push(tab_id);
                assert(restored.deep_view() =~= before.push(tab_id@));
                if pending.len() > 0 {
                    let target = Target::Workspace(workspace_id.clone());
                    Restore::fill(
                        label,
                        pending,
                        active,
                        take_focus,
                        restored,
                        target,
                        workspace_id,
                    )
                } else {
                    let tab_id = restored[active].clone();
                    let restore = Restore {
                        label,
                        pending,
                        active,
                        take_focus,
                        restored,
                        stage: Stage::Select(workspace_id),
                    };
                    RestoreStep::Ask(restore, Request::FocusTab { tab_id })
                }
            },
            (Stage::Select(workspace_id), Reply::Done) => {
                if take_focus {
                    let restore = Restore {
                        label,
                        pending,
                        active,
                        take_focus,
                        restored,
                        stage: Stage::Focus,
                    };
                    RestoreStep::Ask(restore, Request::FocusWorkspace { workspace_id })
                } else {
                    RestoreStep::Done
                }
            },
            (Stage::Focus, Reply::Done) => RestoreStep::Done,
            _ => RestoreStep::Failed(unexpected),
        }
    }
}

/// Where a restoration stands after some replies.
pub open spec fn after_replies(step: RestoreStepView, replies: Seq<ReplyView>) -> RestoreStepView
    decreases replies.len(),
{
    match step {
        RestoreStepView::Ask(restore, _) if replies.len() > 0 => after_replies(
            restore.step(replies[0]),
            replies.drop_first(),
        ),
        _ => step,
    }
}

/// The requests that the replies answer.
pub open spec fn answered(step: RestoreStepView, replies: Seq<ReplyView>) -> Seq<RequestView>
    decreases replies.len(),
{
    match step {
        RestoreStepView::Ask(restore, request) if replies.len() > 0 => seq![request] + answered(
            restore.step(replies[0]),
            replies.drop_first(),
        ),
        _ => seq![],
    }
}

/// What herdr says of the tabs that it builds.
pub open spec fn applied(ids: Seq<Text>) -> Seq<ReplyView> {
    ids.map_values(|tab_id: Text| ReplyView::Applied { tab_id })
}

/// What herdr says once all tabs are there.
pub open spec fn focus_replies(take_focus: bool) -> Seq<ReplyView> {
    if take_focus {
        seq![ReplyView::Done, ReplyView::Done]
    } else {
        seq![ReplyView::Done]
    }
}

/// What herdr is asked once all tabs are there.
pub open spec fn focus_requests(
    tab_id: Text,
    workspace_id: Text,
    take_focus: bool,
) -> Seq<RequestView> {
    if take_focus {
        seq![RequestView::FocusTab { tab_id }, RequestView::FocusWorkspace { workspace_id }]
    } else {
        seq![RequestView::FocusTab { tab_id }]
    }
}

/// How a tab is built.
pub open spec fn apply_request(tab: TabView, target: TargetView) -> RequestView {
    RequestView::ApplyLayout { root: tab.root, target, tab_label: tab.label }
}

/// How tabs are appended to a workspace.
pub open spec fn append_requests(tabs: Seq<TabView>, workspace_id: Text) -> Seq<RequestView> {
    tabs.map_values(|tab: TabView| apply_request(tab, TargetView::Workspace(workspace_id)))
}

proof fn focus_ends(s: RestoreView, workspace_id: Text, tab_id: Text)
    requires
        s.stage == StageView::Select(workspace_id),
    ensures
        ({
            let step = RestoreStepView::Ask(s, RequestView::FocusTab { tab_id });
            let replies = focus_replies(s.take_focus);
            &&& after_replies(step, replies) == RestoreStepView::Done
            &&& answered(step, replies) == focus_requests(tab_id, workspace_id, s.take_focus)
        }),
{
    reveal_with_fuel(after_replies, 3);
    reveal_with_fuel(answered, 3);
    let step = RestoreStepView::Ask(s, RequestView::FocusTab { tab_id });
    let replies = focus_replies(s.take_focus);
    assert(replies[0] == ReplyView::Done);
    if s.take_focus {
        assert(replies.drop_first() =~= seq![ReplyView::Done]);
        assert(replies.drop_first().drop_first() =~= seq![]);
    } else {
        assert(replies.drop_first() =~= seq![]);
    }
    assert(answered(step, replies) =~= focus_requests(tab_id, workspace_id, s.take_focus));
}

/// The remaining tabs are appended in their order, and then the focus is set.
proof fn filling_ends(s: RestoreView, workspace_id: Text, request: RequestView, ids: Seq<Text>)
    requires
        s.stage == StageView::Fill(workspace_id),
        ids.len() == s.pending.len() + 1,
        s.active < s.restored.len() + ids.len(),
    ensures
        ({
            let step = RestoreStepView::Ask(s, request);
            let replies = applied(ids) + focus_replies(s.take_focus);
            &&& after_replies(step, replies) == RestoreStepView::Done
            &&& answered(step, replies) == seq![request] + append_requests(s.pending, workspace_id)
                + focus_requests((s.restored + ids)[s.active as int], workspace_id, s.take_focus)
        }),
    decreases ids.len(),
{
    let step = RestoreStepView::Ask(s, request);
    let replies = applied(ids) + focus_replies(s.take_focus);
    let rest = ids.drop_first();
    let restored = s.restored.push(ids[0]);
    assert(replies[0] == ReplyView::Applied { tab_id: ids[0] });
    assert(replies.drop_first() =~= applied(rest) + focus_replies(s.take_focus));
    assert(restored + rest =~= s.restored + ids);
    if s.pending.len() > 0 {
        let next = RestoreView {
            restored,
            pending: s.pending.drop_first(),
            stage: StageView::Fill(workspace_id),
            ..s
        };
        let follow = apply_request(s.pending[0], TargetView::Workspace(workspace_id));
        assert(s.step(replies[0]) == RestoreStepView::Ask(next, follow));
        filling_ends(next, workspace_id, follow, rest);
        assert(append_requests(s.pending, workspace_id) =~= seq![follow] + append_requests(
            next.pending,
            workspace_id,
        ));
    } else {
        let next = RestoreView { restored, stage: StageView::Select(workspace_id), ..s };
        assert(rest =~= seq![]);
        assert(applied(rest) + focus_replies(s.take_focus) =~= focus_replies(s.take_focus));
        assert(append_requests(s.pending, workspace_id) =~= seq![]);
        focus_ends(next, workspace_id, restored[s.active as int]);
    }
    assert(answered(step, replies) =~= seq![request] + append_requests(s.pending, workspace_id)
        + focus_requests((s.restored + ids)[s.active as int], workspace_id, s.take_focus));
}

/// A restoration creates the workspace, replaces its initial tab by the first tab of
/// the definition and appends the others, so that the tabs come in the order in
/// which they were saved; then it selects the tab that was active, and brings the
/// workspace to the front if that is wanted.
pub proof fn restore_rebuilds_every_tab(
    definition: DefinitionView,
    take_focus: bool,
    workspace_id: Text,
    tab_id: Text,
    ids: Seq<Text>,
)
    requires
        definition.tabs.len() > 0,
        ids.len() == definition.tabs.len(),
    ensures
        ({
            let step = RestoreView::begin(definition, take_focus);
            let replies = seq![ReplyView::Created { workspace_id, tab_id }] + applied(ids)
                + focus_replies(take_focus);
            &&& after_replies(step, replies) == RestoreStepView::Done
            &&& answered(step, replies) == seq![
                RequestView::CreateWorkspace { label: definition.label },
                apply_request(definition.tabs[0], TargetView::Tab(tab_id)),
            ] + append_requests(definition.tabs.drop_first(), workspace_id) + focus_requests(
                ids[active_tab(definition.tabs) as int],
                workspace_id,
                take_focus,
            )
        }),
{
    let s = RestoreView::start(definition, take_focus);
    let step = RestoreView::begin(definition, take_focus);
    let replies = seq![ReplyView::Created { workspace_id, tab_id }] + applied(ids) + focus_replies(
        take_focus,
    );
    let request = apply_request(definition.tabs[0], TargetView::Tab(tab_id));
    let next = RestoreView {
        pending: definition.tabs.drop_first(),
        stage: StageView::Fill(workspace_id),
        ..s
    };
    assert(replies[0] == ReplyView::Created { workspace_id, tab_id });
    assert(replies.drop_first() =~= applied(ids) + focus_replies(take_focus));
    assert(s.step(replies[0]) == RestoreStepView::Ask(next, request));
    filling_ends(next, workspace_id, request, ids);
    assert(s.restored + ids =~= ids);
    assert(answered(step, replies) =~= seq![
        RequestView::CreateWorkspace { label: definition.label },
        request,
    ] + append_requests(definition.tabs.drop_first(), workspace_id) + focus_requests(
        ids[active_tab(definition.tabs) as int],
        workspace_id,
        take_focus,
    ));
}

/// The tab that is selected is the first one that was saved as the active one.
pub proof fn active_tab_is_the_marked_one(tabs: Seq<TabView>, i: int)
    requires
        0 <= i < tabs.len(),
        tabs[i].active,
        forall|j: int| 0 <= j < i ==> !(#[trigger] tabs[j]).active,
    ensures
        active_tab(tabs) == i,
    decreases tabs.len(),
{
    if i > 0 {
        let rest = tabs.drop_first();
        assert(!tabs[0].active);
        assert forall|j: int| 0 <= j < i - 1 implies !(#[trigger] rest[j]).active by {
            assert(rest[j] == tabs[j + 1]);
        }
        active_tab_is_the_marked_one(rest, i - 1);
    }
}

/// The first tab is selected where none was saved as the active one.
pub proof fn first_tab_stands_in(tabs: Seq<TabView>)
    requires
        forall|j: int| 0 <= j < tabs.len() ==> !(#[trigger] tabs[j]).active,
    ensures
        active_tab(tabs) == 0,
        first_active(tabs) == tabs.len(),
    decreases tabs.len(),
{
    if tabs.len() > 0 {
        let rest = tabs.drop_first();
        assert forall|j: int| 0 <= j < rest.len() implies !(#[trigger] rest[j]).active by {
            assert(rest[j] == tabs[j + 1]);
        }
        assert(!tabs[0].active);
        first_tab_stands_in(rest);
    }
}

/// The focus moves to a restored workspace only where that was wanted.
pub proof fn focus_moves_only_if_wanted(s: RestoreView, reply: ReplyView)
    ensures
        match s.step(reply) {
            RestoreStepView::Ask(next, request) => next.take_focus == s.take_focus && (request is FocusWorkspace
                ==> s.take_focus),
            _ => true,
        },
{
}

/// A definition with tabs is restored, and the first thing is to create the workspace of
/// its label; one without tabs is refused by its label.
pub proof fn restoration_begins_with_the_workspace(definition: DefinitionView, take_focus: bool)
    ensures
        match RestoreView::begin(definition, take_focus) {
            RestoreStepView::Ask(restore, request) => definition.tabs.len() > 0 && request
                == (RequestView::CreateWorkspace { label: definition.label }),
            RestoreStepView::Failed(message) => definition.tabs.len() == 0 && message
                == "definition "@ + quoted_text(definition.label) + " has no tabs"@,
            RestoreStepView::Done => false,
        },
{
}

/// A restoration goes on as long as herdr answers what it was asked: with the new
/// workspace, then with each tab, then with a word for each change of the focus.
pub proof fn restoration_fails_on_other_answers(s: RestoreView, reply: ReplyView)
    ensures
        s.step(reply) is Failed <==> match s.stage {
            StageView::Create => !(reply is Created),
            StageView::Fill(_) => !(reply is Applied),
            StageView::Select(_) => !(reply is Done),
            StageView::Focus => !(reply is Done),
        },
{
}

/// A failure is told as it is, and once there is a workspace, also that this workspace is
/// left behind, by its label.
pub proof fn failure_names_what_is_left(s: RestoreView, message: Text)
    ensures
        s.stage is Create ==> s.failure(message) == message,
        !(s.stage is Create) ==> s.failure(message) == message
            + " (restore left an incomplete workspace "@ + quoted_text(s.label)
            + "; close it manually)"@,
{
    assert(s.failure(message) =~= match s.stage {
        StageView::Create => message,
        _ => message + " (restore left an incomplete workspace "@ + quoted_text(s.label)
            + "; close it manually)"@,
    });
}

} // verus!
