//! Taking down what a running workspace consists of.

use crate::definition::{commands_change_nothing_else, commands_go_to_their_panes, every_running_pane_gets_its_command, nothing_found_changes_nothing, same_place, Definition, DefinitionView, LayoutNode, LayoutView, TabDefinition, TabView};
use crate::process::{foreground, Foreground, ForegroundView, ProcessInfoView};
use crate::protocol::{Reply, ReplyView, Request, RequestView, TabRow, TabRowView, Workspace, WorkspaceView};
use crate::text::{framed, Text};
use vstd::prelude::*;

verus! {

/// A snapshot of a workspace, as far as it has been taken.
#[derive(Debug, PartialEq, Eq)]
pub struct Snapshot {
    workspace: Workspace,
    self_pid: u64,
    tabs: Option<Vec<TabRow>>,
    done: Vec<TabDefinition>,
    root: Option<LayoutNode>,
    found: Vec<Option<Vec<String>>>,
}

/// Where a snapshot stands.
#[derive(Debug, PartialEq, Eq)]
pub enum SnapshotStep {
    /// herdr has to be asked something more.
    Ask(Snapshot, Request),
    /// Everything is known.
    Done(Definition),
    /// The workspace cannot be taken down.
    Failed(String),
}

/// The model of a `Snapshot`.
pub struct SnapshotView {
    pub workspace: WorkspaceView,
    /// The process that takes the snapshot.
    pub self_pid: u64,
    /// The tabs of the workspace, once they are known.
    pub tabs: Option<Seq<TabRowView>>,
    /// The tabs that have been taken down.
    pub done: Seq<TabView>,
    /// The layout of the tab that follows them, once it is known.
    pub root: Option<LayoutView>,
    /// What runs in the first panes of that layout.
    pub found: Seq<Option<Seq<Text>>>,
}

/// The model of a `SnapshotStep`.
pub enum SnapshotStepView {
    Ask(SnapshotView, RequestView),
    Done(DefinitionView),
    Failed(Text),
}

/// The tab that is taken down of a running one, given its layout and what was found to
/// run in its panes.
pub open spec fn taken_down(
    workspace: WorkspaceView,
    row: TabRowView,
    root: LayoutView,
    found: Seq<Option<Seq<Text>>>,
) -> TabView {
    TabView {
        label: Some(row.label),
        active: row.tab_id == workspace.active_tab_id,
        root: root.with_commands(found),
    }
}

impl SnapshotView {
    /// A snapshot that nothing is known of yet.
    pub open spec fn start(workspace: WorkspaceView, self_pid: u64) -> SnapshotView {
        SnapshotView {
            workspace,
            self_pid,
            tabs: None,
            done: seq![],
            root: None,
            found: seq![],
        }
    }

    /// What is still unknown of an unfinished snapshot and comes first: the tabs of
    /// the workspace, the layout of a tab, or what runs in a pane.
    pub open spec fn request(self) -> RequestView {
        match (self.tabs, self.root) {
            (None, _) => RequestView::ListTabs { workspace_id: self.workspace.id },
            (Some(tabs), None) => RequestView::ExportLayout {
                tab_id: tabs[self.done.len() as int].tab_id,
            },
            (Some(_), Some(root)) => RequestView::InspectPane {
                pane_id: root.pane_ids()[self.found.len() as int],
            },
        }
    }

    /// A tab is done once it is known what runs in all of its panes.
    pub open spec fn settled(self) -> SnapshotView {
        match (self.tabs, self.root) {
            (Some(tabs), Some(root)) => if self.found.len() == root.pane_ids().len() {
                let row = tabs[self.done.len() as int];
                SnapshotView {
                    done: self.done.push(taken_down(self.workspace, row, root, self.found)),
                    root: None,
                    found: seq![],
                    ..self
                }
            } else {
                self
            },
            _ => self,
        }
    }

    /// The snapshot is finished once all tabs are done.
    pub open spec fn proceed(self) -> SnapshotStepView {
        let next = self.settled();
        if next.tabs is Some && next.done.len() == next.tabs->0.len() {
            SnapshotStepView::Done(
                DefinitionView { label: next.workspace.label, tabs: next.done },
            )
        } else {
            SnapshotStepView::Ask(next, next.request())
        }
    }

    /// What a reply to `request` adds to the snapshot. It fails on a workspace
    /// without tabs, and on a pane that runs something of which the arguments are not
    /// known: what would be saved then is not what is there.
    pub open spec fn step(self, reply: ReplyView) -> SnapshotStepView {
        match (self.tabs, self.root, reply) {
            (None, _, ReplyView::Tabs(tabs)) => if tabs.len() == 0 {
                SnapshotStepView::Failed(
                    "workspace "@ + self.workspace.label + " has no tabs"@,
                )
            } else {
                (SnapshotView { tabs: Some(tabs), ..self }).proceed()
            },
            (Some(_), None, ReplyView::Layout(root)) => (SnapshotView {
                root: Some(root),
                ..self
            }).proceed(),
            (Some(_), Some(root), ReplyView::Processes(info)) => match info.foreground(
                self.self_pid,
            ) {
                ForegroundView::Unknown => SnapshotStepView::Failed(
                    "pane "@ + root.pane_ids()[self.found.len() as int]
                        + ": the foreground process has no argv"@,
                ),
                running => (SnapshotView {
                    found: self.found.push(running.command()),
                    ..self
                }).proceed(),
            },
            _ => SnapshotStepView::Failed(
                "herdr "@ + self.request().method() + " sent an unexpected reply"@,
            ),
        }
    }
}

impl DeepView for Snapshot {
    type V = SnapshotView;

    closed spec fn deep_view(&self) -> SnapshotView {
        SnapshotView {
            workspace: self.workspace.deep_view(),
            self_pid: self.self_pid,
            tabs: self.tabs.deep_view(),
            done: self.done.deep_view(),
            root: self.root.deep_view(),
            found: self.found.deep_view(),
        }
    }
}

impl DeepView for SnapshotStep {
    type V = SnapshotStepView;

    open spec fn deep_view(&self) -> SnapshotStepView {
        match *self {
            SnapshotStep::Ask(snapshot, request) => SnapshotStepView::Ask(
                snapshot.deep_view(),
                request.deep_view(),
            ),
            SnapshotStep::Done(definition) => SnapshotStepView::Done(definition.deep_view()),
            SnapshotStep::Failed(message) => SnapshotStepView::Failed(message@),
        }
    }
}

/// What is known of an unfinished snapshot.
struct Known {
    workspace: Workspace,
    self_pid: u64,
    tabs: Vec<TabRow>,
    done: Vec<TabDefinition>,
    root: Option<LayoutNode>,
    found: Vec<Option<Vec<String>>>,
}

impl Known {
    spec fn model(self) -> SnapshotView {
        SnapshotView {
            workspace: self.workspace.deep_view(),
            self_pid: self.self_pid,
            tabs: Some(self.tabs.deep_view()),
            done: self.done.deep_view(),
            root: self.root.deep_view(),
            found: self.found.deep_view(),
        }
    }

    /// Goes on with a tab, or with the next one once it is done.
    fn proceed(self) -> (result: SnapshotStep)
        requires
            self.done@.len() < self.tabs@.len(),
            match self.root {
                Some(root) => self.found@.len() <= root.tree().pane_ids().len(),
                None => self.found@.len() == 0,
            },
        ensures
            result.deep_view() == self.model().proceed(),
    {
        let ghost model = self.model();
        let Known { workspace, self_pid, tabs, done, root, found } = self;
        let mut done = done;
        let root = match root {
            Some(root) => {
                let ids = root.pane_ids();
                if found.len() < ids.len() {
                    let pane_id = ids[found.len()].clone();
                    let snapshot = Snapshot {
                        workspace,
                        self_pid,
                        tabs: Some(tabs),
                        done,
                        root: Some(root),
                        found,
                    };
                    return SnapshotStep::Ask(snapshot, Request::InspectPane { pane_id });
                }
                let row = &tabs[done.len()];
                let ghost before = done.deep_view();
                let tab = TabDefinition {
                    label: Some(row.label.clone()),
                    active: row.tab_id == workspace.active_tab_id,
                    root: root.capture_commands(found),
                };
                let ghost added = tab.deep_view();
                done.push(tab);
                proof {
                    assert(done.deep_view() =~= before.push(added));
                    assert(model.settled().done =~= before.push(added));
                }
                if done.len() == tabs.len() {
                    return SnapshotStep::Done(Definition { label: workspace.label, tabs: done });
                }
            },
            None => {},
        };
        let tab_id = tabs[done.len()].tab_id.clone();
        let snapshot = Snapshot {
            workspace,
            self_pid,
            tabs: Some(tabs),
            done,
            root: None,
            found: Vec::new(),
        };
        proof {
            assert(snapshot.found.deep_view() =~= Seq::<Option<Seq<Text>>>::empty());
            assert(model.found.len() == self.found@.len());
            assert(model.root is None ==> model.found =~= Seq::<Option<Seq<Text>>>::empty());
        }
        SnapshotStep::Ask(snapshot, Request::ExportLayout { tab_id })
    }
}

impl Snapshot {
    #[verifier::type_invariant]
    spec fn is_unfinished(self) -> bool {
        match self.tabs {
            None => self.done@.len() == 0 && self.root is None && self.found@.len() == 0,
            Some(tabs) => self.done@.len() < tabs@.len() && match self.root {
                Some(root) => self.found@.len() < root.tree().pane_ids().len(),
                None => self.found@.len() == 0,
            },
        }
    }

    /// Starts a snapshot of a workspace, taken by the process `self_pid`.
    pub fn start(workspace: Workspace, self_pid: u64) -> (result: (Snapshot, Request))
        ensures
            result.0.deep_view() == SnapshotView::start(workspace.deep_view(), self_pid),
            result.1.deep_view() == result.0.deep_view().request(),
    {
        let workspace_id = workspace.id.clone();
        let snapshot = Snapshot {
            workspace,
            self_pid,
            tabs: None,
            done: Vec::new(),
            root: None,
            found: Vec::new(),
        };
        proof {
            assert(snapshot.done.deep_view() =~= Seq::<TabView>::empty());
            assert(snapshot.found.deep_view() =~= Seq::<Option<Seq<Text>>>::empty());
        }
        (snapshot, Request::ListTabs { workspace_id })
    }

    /// What is asked of herdr.
    fn request(&self) -> (result: Request)
        ensures
            result.deep_view() == self.deep_view().request(),
    {
        proof {
            use_type_invariant(self);
        }
        match (&self.tabs, &self.root) {
            (None, _) => Request::ListTabs { workspace_id: self.workspace.id.clone() },
            (Some(tabs), None) => Request::ExportLayout {
                tab_id: tabs[self.done.len()].tab_id.clone(),
            },
            (Some(_), Some(root)) => {
                let ids = root.pane_ids();
                Request::InspectPane { pane_id: ids[self.found.len()].clone() }
            },
        }
    }

    /// Adds a reply of herdr to the snapshot.
    pub fn step(self, reply: Reply) -> (result: SnapshotStep)
        ensures
            result.deep_view() == self.deep_view().step(reply.deep_view()),
    {
        proof {
            use_type_invariant(&self);
        }
        let asked = self.request();
        let Snapshot { workspace, self_pid, tabs, done, root, found } = self;
        match (tabs, root, reply) {
            (None, None, Reply::Tabs(tabs)) => {
                if tabs.len() == 0 {
                    return SnapshotStep::Failed(
                        framed("workspace ", workspace.label.as_str(), " has no tabs"),
                    );
                }
                (Known { workspace, self_pid, tabs, done, root: None, found }).proceed()
            },
            (Some(tabs), None, Reply::Layout(root)) => {
                (Known { workspace, self_pid, tabs, done, root: Some(root), found }).proceed()
            },
            (Some(tabs), Some(root), Reply::Processes(info)) => {
                let mut found = found;
                let ghost before = found.deep_view();
                match foreground(&info, self_pid) {
                    Foreground::Unknown => {
                        let ids = root.pane_ids();
                        return SnapshotStep::Failed(
                            framed(
                                "pane ",
                                ids[found.len()].as_str(),
                                ": the foreground process has no argv",
                            ),
                        );
                    },
                    Foreground::Command(argv) => {
                        found.push(Some(argv));
                        assert(found.deep_view() =~= before.push(Some(argv.deep_view())));
                    },
                    Foreground::Idle => {
                        found.push(None);
                        assert(found.deep_view() =~= before.push(None));
                    },
                }
                (Known { workspace, self_pid, tabs, done, root: Some(root), found }).proceed()
            },
            _ => SnapshotStep::Failed(
                framed("herdr ", asked.method().as_str(), " sent an unexpected reply"),
            ),
        }
    }
}

/// Where a snapshot stands after some replies.
pub open spec fn after_replies(step: SnapshotStepView, replies: Seq<ReplyView>) -> SnapshotStepView
    decreases replies.len(),
{
    match step {
        SnapshotStepView::Ask(snapshot, _) if replies.len() > 0 => after_replies(
            snapshot.step(replies[0]),
            replies.drop_first(),
        ),
        _ => step,
    }
}

/// The requests that the replies answer.
pub open spec fn answered(step: SnapshotStepView, replies: Seq<ReplyView>) -> Seq<RequestView>
    decreases replies.len(),
{
    match step {
        SnapshotStepView::Ask(snapshot, request) if replies.len() > 0 => seq![request] + answered(
            snapshot.step(replies[0]),
            replies.drop_first(),
        ),
        _ => seq![],
    }
}

/// What herdr says of a tab: its layout, and what runs in each of its panes.
pub open spec fn tab_replies(root: LayoutView, infos: Seq<ProcessInfoView>) -> Seq<ReplyView> {
    seq![ReplyView::Layout(root)] + pane_replies(infos)
}

/// What herdr says of panes.
pub open spec fn pane_replies(infos: Seq<ProcessInfoView>) -> Seq<ReplyView> {
    infos.map_values(|info: ProcessInfoView| ReplyView::Processes(info))
}

/// What herdr says of the tabs from number `from` on.
pub open spec fn tabs_replies(
    roots: Seq<LayoutView>,
    infos: Seq<Seq<ProcessInfoView>>,
    from: nat,
) -> Seq<ReplyView>
    decreases roots.len() - from,
{
    if from >= roots.len() {
        seq![]
    } else {
        tab_replies(roots[from as int], infos[from as int]) + tabs_replies(roots, infos, from + 1)
    }
}

/// What is asked of a tab: its layout, and what runs in each of its panes.
pub open spec fn tab_requests(row: TabRowView, root: LayoutView) -> Seq<RequestView> {
    seq![RequestView::ExportLayout { tab_id: row.tab_id }] + pane_requests(root.pane_ids())
}

/// What is asked of panes.
pub open spec fn pane_requests(ids: Seq<Text>) -> Seq<RequestView> {
    ids.map_values(|pane_id: Text| RequestView::InspectPane { pane_id })
}

/// What is asked of the tabs from number `from` on.
pub open spec fn tabs_requests(
    tabs: Seq<TabRowView>,
    roots: Seq<LayoutView>,
    from: nat,
) -> Seq<RequestView>
    decreases roots.len() - from,
{
    if from >= roots.len() {
        seq![]
    } else {
        tab_requests(tabs[from as int], roots[from as int]) + tabs_requests(
            tabs,
            roots,
            from + 1,
        )
    }
}

/// What was found to run in panes.
pub open spec fn commands(infos: Seq<ProcessInfoView>, self_pid: u64) -> Seq<Option<Seq<Text>>> {
    infos.map_values(|info: ProcessInfoView| info.foreground(self_pid).command())
}

/// The first tabs of a workspace, as they are taken down.
pub open spec fn tabs_taken_down(
    workspace: WorkspaceView,
    self_pid: u64,
    tabs: Seq<TabRowView>,
    roots: Seq<LayoutView>,
    infos: Seq<Seq<ProcessInfoView>>,
    count: nat,
) -> Seq<TabView> {
    Seq::new(
        count,
        |i: int| taken_down(workspace, tabs[i], roots[i], commands(infos[i], self_pid)),
    )
}

/// For every pane of every tab there is a report, which says what runs in it.
pub open spec fn all_known(
    self_pid: u64,
    tabs: Seq<TabRowView>,
    roots: Seq<LayoutView>,
    infos: Seq<Seq<ProcessInfoView>>,
) -> bool {
    &&& tabs.len() == roots.len()
    &&& tabs.len() == infos.len()
    &&& forall|i: int|
        0 <= i < tabs.len() ==> (#[trigger] infos[i]).len() == roots[i].pane_ids().len()
    &&& forall|i: int, j: int|
        0 <= i < tabs.len() && 0 <= j < infos[i].len() ==> !((#[trigger] infos[i][j]).foreground(
            self_pid,
        ) is Unknown)
}

proof fn replies_in_parts(step: SnapshotStepView, a: Seq<ReplyView>, b: Seq<ReplyView>)
    ensures
        after_replies(step, a + b) == after_replies(after_replies(step, a), b),
        answered(step, a + b) == answered(step, a) + answered(after_replies(step, a), b),
    decreases a.len(),
{
    if a.len() == 0 {
        assert(a + b =~= b);
        assert(answered(step, a) =~= seq![]);
    } else {
        match step {
            SnapshotStepView::Ask(snapshot, request) => {
                assert((a + b).drop_first() =~= a.drop_first() + b);
                replies_in_parts(snapshot.step(a[0]), a.drop_first(), b);
                assert(answered(step, a + b) =~= answered(step, a) + answered(
                    after_replies(step, a),
                    b,
                ));
            },
            _ => {
                assert(answered(step, a + b) =~= answered(step, a) + answered(
                    after_replies(step, a),
                    b,
                ));
            },
        }
    }
}

/// The replies for the remaining panes of a tab complete the tab.
proof fn panes_complete_tab(s: SnapshotView, infos: Seq<ProcessInfoView>)
    requires
        s.tabs is Some,
        s.done.len() < s.tabs->0.len(),
        s.root is Some,
        s.found.len() + infos.len() == s.root->0.pane_ids().len(),
        infos.len() > 0,
        forall|j: int|
            0 <= j < infos.len() ==> !((#[trigger] infos[j]).foreground(s.self_pid) is Unknown),
    ensures
        after_replies(SnapshotStepView::Ask(s, s.request()), pane_replies(infos))
            == (SnapshotView { found: s.found + commands(infos, s.self_pid), ..s }).proceed(),
        answered(SnapshotStepView::Ask(s, s.request()), pane_replies(infos)) == pane_requests(
            s.root->0.pane_ids().skip(s.found.len() as int),
        ),
    decreases infos.len(),
{
    let ids = s.root->0.pane_ids();
    let replies = pane_replies(infos);
    let rest = infos.drop_first();
    let step = SnapshotStepView::Ask(s, s.request());
    let found = s.found.push(infos[0].foreground(s.self_pid).command());
    let next = SnapshotView { found, ..s };
    assert(replies[0] == ReplyView::Processes(infos[0]));
    assert(replies.drop_first() =~= pane_replies(rest));
    assert(s.step(replies[0]) == next.proceed());
    assert(found + commands(rest, s.self_pid) =~= s.found + commands(infos, s.self_pid));
    assert(pane_requests(ids.skip(s.found.len() as int)) =~= seq![s.request()] + pane_requests(
        ids.skip(found.len() as int),
    ));
    if rest.len() > 0 {
        assert(next.settled() == next);
        panes_complete_tab(next, rest);
    } else {
        assert(found =~= s.found + commands(infos, s.self_pid));
        assert(ids.skip(found.len() as int) =~= seq![]);
        assert(after_replies(next.proceed(), seq![]) == next.proceed());
        assert(answered(next.proceed(), seq![]) =~= seq![]);
        assert(replies.drop_first() =~= seq![]);
    }
}

/// The replies for a tab complete it.
proof fn replies_complete_tab(s: SnapshotView, root: LayoutView, infos: Seq<ProcessInfoView>)
    requires
        s.tabs is Some,
        s.done.len() < s.tabs->0.len(),
        s.root is None,
        s.found.len() == 0,
        infos.len() == root.pane_ids().len(),
        forall|j: int|
            0 <= j < infos.len() ==> !((#[trigger] infos[j]).foreground(s.self_pid) is Unknown),
    ensures
        ({
            let row = s.tabs->0[s.done.len() as int];
            let tab = taken_down(s.workspace, row, root, commands(infos, s.self_pid));
            let step = SnapshotStepView::Ask(s, s.request());
            let replies = tab_replies(root, infos);
            &&& after_replies(step, replies) == (SnapshotView {
                done: s.done.push(tab),
                ..s
            }).proceed()
            &&& answered(step, replies) == tab_requests(row, root)
        }),
{
    let row = s.tabs->0[s.done.len() as int];
    let found = commands(infos, s.self_pid);
    let tab = taken_down(s.workspace, row, root, found);
    let step = SnapshotStepView::Ask(s, s.request());
    let replies = tab_replies(root, infos);
    let open = SnapshotView { root: Some(root), ..s };
    let full = SnapshotView { found, ..open };
    let done = SnapshotView { done: s.done.push(tab), ..s };
    assert(s.found =~= seq![]);
    assert(replies[0] == ReplyView::Layout(root));
    assert(replies.drop_first() =~= pane_replies(infos));
    assert(s.step(replies[0]) == open.proceed());
    assert(full.settled() =~= done);
    assert(done.settled() == done);
    assert(full.proceed() == done.proceed());
    if infos.len() > 0 {
        assert(open.settled() == open);
        panes_complete_tab(open, infos);
        assert(open.found + found =~= found);
        assert(root.pane_ids().skip(0) =~= root.pane_ids());
    } else {
        assert(found =~= seq![]);
        assert(open == full);
        assert(pane_replies(infos) =~= seq![]);
        assert(pane_requests(root.pane_ids()) =~= seq![]);
        assert(after_replies(open.proceed(), seq![]) == open.proceed());
        assert(answered(open.proceed(), seq![]) =~= seq![]);
    }
    assert(answered(step, replies) =~= tab_requests(row, root));
}

/// The replies for the remaining tabs complete the snapshot.
proof fn replies_complete_tabs(
    s: SnapshotView,
    roots: Seq<LayoutView>,
    infos: Seq<Seq<ProcessInfoView>>,
)
    requires
        s.tabs is Some,
        s.root is None,
        s.found.len() == 0,
        s.done.len() < s.tabs->0.len(),
        s.done == tabs_taken_down(
            s.workspace,
            s.self_pid,
            s.tabs->0,
            roots,
            infos,
            s.done.len(),
        ),
        all_known(s.self_pid, s.tabs->0, roots, infos),
    ensures
        ({
            let tabs = s.tabs->0;
            let step = SnapshotStepView::Ask(s, s.request());
            let replies = tabs_replies(roots, infos, s.done.len());
            &&& after_replies(step, replies) == SnapshotStepView::Done(
                DefinitionView {
                    label: s.workspace.label,
                    tabs: tabs_taken_down(
                        s.workspace,
                        s.self_pid,
                        tabs,
                        roots,
                        infos,
                        tabs.len(),
                    ),
                },
            )
            &&& answered(step, replies) == tabs_requests(tabs, roots, s.done.len())
        }),
    decreases s.tabs->0.len() - s.done.len(),
{
    let tabs = s.tabs->0;
    let i = s.done.len() as int;
    let step = SnapshotStepView::Ask(s, s.request());
    let tab = taken_down(s.workspace, tabs[i], roots[i], commands(infos[i], s.self_pid));
    let next = SnapshotView { done: s.done.push(tab), ..s };
    let here = tab_replies(roots[i], infos[i]);
    let there = tabs_replies(roots, infos, (i + 1) as nat);
    assert forall|j: int| 0 <= j < infos[i].len() implies !((#[trigger] infos[i][j]).foreground(
        s.self_pid,
    ) is Unknown) by {}
    replies_complete_tab(s, roots[i], infos[i]);
    replies_in_parts(step, here, there);
    assert(next.settled() == next);
    assert(next.done =~= tabs_taken_down(
        s.workspace,
        s.self_pid,
        tabs,
        roots,
        infos,
        (i + 1) as nat,
    ));
    if i + 1 < tabs.len() {
        replies_complete_tabs(next, roots, infos);
    } else {
        assert(there =~= seq![]);
        assert(tabs_requests(tabs, roots, (i + 1) as nat) =~= seq![]);
    }
}

/// A snapshot asks for the tabs of the workspace, then for each tab in turn for its
/// layout and for what runs in each of its panes. What is taken down is every tab in its
/// place, with its label, marked where it is the workspace's active one, and with
/// the foreground commands in its panes.
pub proof fn snapshot_takes_down_every_tab(
    workspace: WorkspaceView,
    self_pid: u64,
    tabs: Seq<TabRowView>,
    roots: Seq<LayoutView>,
    infos: Seq<Seq<ProcessInfoView>>,
)
    requires
        tabs.len() > 0,
        all_known(self_pid, tabs, roots, infos),
    ensures
        ({
            let s = SnapshotView::start(workspace, self_pid);
            let step = SnapshotStepView::Ask(s, s.request());
            let replies = seq![ReplyView::Tabs(tabs)] + tabs_replies(roots, infos, 0);
            &&& after_replies(step, replies) == SnapshotStepView::Done(
                DefinitionView {
                    label: workspace.label,
                    tabs: tabs_taken_down(workspace, self_pid, tabs, roots, infos, tabs.len()),
                },
            )
            &&& answered(step, replies) == seq![
                RequestView::ListTabs { workspace_id: workspace.id },
            ] + tabs_requests(tabs, roots, 0)
        }),
{
    let s = SnapshotView::start(workspace, self_pid);
    let replies = seq![ReplyView::Tabs(tabs)] + tabs_replies(roots, infos, 0);
    let next = SnapshotView { tabs: Some(tabs), ..s };
    assert(replies[0] == ReplyView::Tabs(tabs));
    assert(replies.drop_first() =~= tabs_replies(roots, infos, 0));
    assert(next.settled() == next);
    assert(s.step(replies[0]) == SnapshotStepView::Ask(next, next.request()));
    assert(next.done =~= tabs_taken_down(workspace, self_pid, tabs, roots, infos, 0));
    replies_complete_tabs(next, roots, infos);
}

/// What is taken down of a tab is its layout as it was reported, in which nothing but
/// the commands has changed.
pub proof fn only_commands_are_added(
    workspace: WorkspaceView,
    row: TabRowView,
    root: LayoutView,
    found: Seq<Option<Seq<Text>>>,
)
    ensures
        taken_down(workspace, row, root, found).root.bare() == root.bare(),
        taken_down(workspace, row, root, found).root.pane_ids() == root.pane_ids(),
        found.len() == root.pane_ids().len() && (forall|i: int|
            0 <= i < found.len() ==> (#[trigger] found[i]) is None) ==> taken_down(
            workspace,
            row,
            root,
            found,
        ).root == root,
{
    commands_change_nothing_else(root, found);
    if found.len() == root.pane_ids().len() && (forall|i: int|
        0 <= i < found.len() ==> (#[trigger] found[i]) is None) {
        nothing_found_changes_nothing(root, found);
    }
}

/// A tab is taken down whole: with its label, marked where the workspace names it as its
/// active one, with its layout as it was reported, and with what was found to run in
/// each of its panes.
pub proof fn tab_is_taken_down_whole(
    workspace: WorkspaceView,
    row: TabRowView,
    root: LayoutView,
    found: Seq<Option<Seq<Text>>>,
    path: Seq<bool>,
)
    requires
        found.len() == root.pane_ids().len(),
    ensures
        ({
            let tab = taken_down(workspace, row, root, found);
            let after = tab.root.running_panes();
            &&& tab.label == Some(row.label)
            &&& tab.active <==> row.tab_id == workspace.active_tab_id
            &&& same_place(root.part(path), tab.root.part(path))
            &&& after.len() == found.len()
            &&& forall|i: int|
                0 <= i < found.len() ==> {
                    &&& (#[trigger] after[i]).pane_name() == Some(root.pane_ids()[i])
                    &&& after[i].pane_command() == if found[i] is Some {
                        found[i]
                    } else {
                        root.running_panes()[i].pane_command()
                    }
                }
        }),
{
    commands_go_to_their_panes(root, found, path);
    every_running_pane_gets_its_command(root, found);
}

/// A snapshot fails exactly where herdr answers something else than what was asked for,
/// or the workspace has no tabs, or it is not known what runs in a pane.
pub proof fn snapshot_fails_where_something_is_missing(s: SnapshotView, reply: ReplyView)
    ensures
        !(s.step(reply) is Failed) <==> match (s.tabs, s.root, reply) {
            (None, _, ReplyView::Tabs(tabs)) => tabs.len() > 0,
            (Some(_), None, ReplyView::Layout(_)) => true,
            (Some(_), Some(_), ReplyView::Processes(info)) => !(info.foreground(
                s.self_pid,
            ) is Unknown),
            _ => false,
        },
{
}

/// A pane of which it is not known what runs in it is named.
pub proof fn unknown_pane_is_named(s: SnapshotView, info: ProcessInfoView)
    requires
        s.tabs is Some,
        s.root is Some,
        info.foreground(s.self_pid) is Unknown,
    ensures
        s.step(ReplyView::Processes(info)) == SnapshotStepView::Failed(
            "pane "@ + s.root->0.pane_ids()[s.found.len() as int]
                + ": the foreground process has no argv"@,
        ),
{
}

} // verus!
