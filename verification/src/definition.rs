//! What is saved of a workspace: its tabs and how their panes are laid out.

use crate::text::Text;
use crate::text_map::TextMap;
use vstd::prelude::*;

verus! {

/// A tab's panes: a single pane, or an area split in two.
#[derive(Debug, PartialEq, Eq)]
pub enum LayoutNode {
    Pane {
        cwd: Option<String>,
        command: Option<Vec<String>>,
        env: TextMap<String>,
        label: Option<String>,
        /// The running pane that the node describes. It serves to find the
        /// pane's foreground command and is not saved.
        pane_id: Option<String>,
    },
    Split {
        direction: String,
        /// The share of the first part, as the bits of an IEEE 754 double.
        ratio: u64,
        first: Box<LayoutNode>,
        second: Box<LayoutNode>,
    },
}

/// One tab of a saved workspace.
#[derive(Debug, PartialEq, Eq)]
pub struct TabDefinition {
    pub label: Option<String>,
    /// Whether the tab was the selected one.
    pub active: bool,
    pub root: LayoutNode,
}

/// A saved workspace.
#[derive(Debug, PartialEq, Eq)]
pub struct Definition {
    pub label: String,
    pub tabs: Vec<TabDefinition>,
}

/// A definition as a file may hold it: with its tabs, or, in the format of
/// version 0.1, with the layout of its only tab.
#[derive(Debug, PartialEq, Eq)]
pub enum StoredDefinition {
    Tabs(Definition),
    Legacy { label: String, root: LayoutNode },
}

/// The model of a `LayoutNode`.
pub enum LayoutView {
    Pane {
        cwd: Option<Text>,
        command: Option<Seq<Text>>,
        env: Map<Text, Text>,
        label: Option<Text>,
        pane_id: Option<Text>,
    },
    Split { direction: Text, ratio: u64, first: Box<LayoutView>, second: Box<LayoutView> },
}

/// The model of a `TabDefinition`.
pub struct TabView {
    pub label: Option<Text>,
    pub active: bool,
    pub root: LayoutView,
}

/// The model of a `Definition`.
pub struct DefinitionView {
    pub label: Text,
    pub tabs: Seq<TabView>,
}

/// The model of a `StoredDefinition`.
pub enum StoredView {
    Tabs(DefinitionView),
    Legacy { label: Text, root: LayoutView },
}

impl LayoutNode {
    /// The tree that the node stands for.
    pub open spec fn tree(self) -> LayoutView
        decreases self,
    {
        match self {
            LayoutNode::Pane { cwd, command, env, label, pane_id } => LayoutView::Pane {
                cwd: cwd.deep_view(),
                command: command.deep_view(),
                env: env.deep_view(),
                label: label.deep_view(),
                pane_id: pane_id.deep_view(),
            },
            LayoutNode::Split { direction, ratio, first, second } => LayoutView::Split {
                direction: direction@,
                ratio,
                first: Box::new(first.tree()),
                second: Box::new(second.tree()),
            },
        }
    }
}

impl DeepView for LayoutNode {
    type V = LayoutView;

    open spec fn deep_view(&self) -> LayoutView {
        self.tree()
    }
}

impl DeepView for TabDefinition {
    type V = TabView;

    open spec fn deep_view(&self) -> TabView {
        TabView { label: self.label.deep_view(), active: self.active, root: self.root.tree() }
    }
}

impl DeepView for Definition {
    type V = DefinitionView;

    open spec fn deep_view(&self) -> DefinitionView {
        DefinitionView { label: self.label@, tabs: self.tabs.deep_view() }
    }
}

impl DeepView for StoredDefinition {
    type V = StoredView;

    open spec fn deep_view(&self) -> StoredView {
        match *self {
            StoredDefinition::Tabs(definition) => StoredView::Tabs(definition.deep_view()),
            StoredDefinition::Legacy { label, root } => StoredView::Legacy {
                label: label@,
                root: root.tree(),
            },
        }
    }
}

impl LayoutView {
    /// The running panes of the tree, the first part of a split before the second.
    pub open spec fn pane_ids(self) -> Seq<Text>
        decreases self,
    {
        match self {
            LayoutView::Pane { pane_id: Some(id), .. } => seq![id],
            LayoutView::Pane { pane_id: None, .. } => Seq::empty(),
            LayoutView::Split { first, second, .. } => first.pane_ids() + second.pane_ids(),
        }
    }

    /// The tree with the commands `found` for its running panes, in the order of
    /// `pane_ids`. A pane for which none was found keeps what it had.
    pub open spec fn with_commands(self, found: Seq<Option<Seq<Text>>>) -> LayoutView
        decreases self,
    {
        match self {
            LayoutView::Pane { cwd, command, env, label, pane_id } => LayoutView::Pane {
                cwd,
                command: if pane_id is Some && found[0] is Some {
                    found[0]
                } else {
                    command
                },
                env,
                label,
                pane_id,
            },
            LayoutView::Split { direction, ratio, first, second } => {
                let n = first.pane_ids().len() as int;
                LayoutView::Split {
                    direction,
                    ratio,
                    first: Box::new(first.with_commands(found.take(n))),
                    second: Box::new(second.with_commands(found.skip(n))),
                }
            },
        }
    }

    /// The tree as it is saved: without a word on which panes are running.
    pub open spec fn saved(self) -> LayoutView
        decreases self,
    {
        match self {
            LayoutView::Pane { cwd, command, env, label, pane_id } => LayoutView::Pane {
                cwd,
                command,
                env,
                label,
                pane_id: None,
            },
            LayoutView::Split { direction, ratio, first, second } => LayoutView::Split {
                direction,
                ratio,
                first: Box::new(first.saved()),
                second: Box::new(second.saved()),
            },
        }
    }
}

impl TabView {
    /// The tab as it is saved.
    pub open spec fn saved(self) -> TabView {
        TabView { root: self.root.saved(), ..self }
    }
}

impl DefinitionView {
    /// The definition as it is saved.
    pub open spec fn saved(self) -> DefinitionView {
        DefinitionView { tabs: self.tabs.map_values(|tab: TabView| tab.saved()), ..self }
    }
}

impl StoredView {
    /// The definition that a file holds. A file of the older format describes the
    /// only tab of its workspace, which has the workspace's label.
    pub open spec fn definition(self) -> DefinitionView {
        match self {
            StoredView::Tabs(definition) => definition,
            StoredView::Legacy { label, root } => DefinitionView {
                label,
                tabs: seq![TabView { label: Some(label), active: true, root }],
            },
        }
    }
}

impl LayoutNode {
    /// The running panes of the layout, the first part of a split before the second.
    pub fn pane_ids(&self) -> (result: Vec<String>)
        ensures
            result.deep_view() == self.tree().pane_ids(),
        decreases self,
    {
        let mut result: Vec<String> = Vec::new();
        match self {
            LayoutNode::Pane { pane_id: Some(id), .. } => {
                result.push(id.clone());
            },
            LayoutNode::Pane { pane_id: None, .. } => {},
            LayoutNode::Split { first, second, .. } => {
                result = first.pane_ids();
                let mut rest = second.pane_ids();
                result.append(&mut rest);
            },
        }
        assert(result.deep_view() =~= self.tree().pane_ids());
        result
    }

    /// Puts the commands that were found into the running panes, in the order of
    /// `pane_ids`. A pane for which none was found keeps what it had.
    pub fn capture_commands(self, found: Vec<Option<Vec<String>>>) -> (result: LayoutNode)
        requires
            found@.len() == self.tree().pane_ids().len(),
        ensures
            result.tree() == self.tree().with_commands(found.deep_view()),
        decreases self,
    {
        let mut found = found;
        match self {
            LayoutNode::Pane { cwd, command, env, label, pane_id } => {
                let command = match found.pop() {
                    Some(Some(argv)) => Some(argv),
                    _ => command,
                };
                LayoutNode::Pane { cwd, command, env, label, pane_id }
            },
            LayoutNode::Split { direction, ratio, first, second } => {
                let ghost all = found.deep_view();
                let n = first.pane_ids().len();
                let rest = found.split_off(n);
                assert(found.deep_view() =~= all.take(n as int));
                assert(rest.deep_view() =~= all.skip(n as int));
                let first = Box::new((*first).capture_commands(found));
                let second = Box::new((*second).capture_commands(rest));
                LayoutNode::Split { direction, ratio, first, second }
            },
        }
    }

    /// The layout as it is saved: without a word on which panes are running.
    pub fn into_saved(self) -> (result: LayoutNode)
        ensures
            result.tree() == self.tree().saved(),
        decreases self,
    {
        match self {
            LayoutNode::Pane { cwd, command, env, label, .. } => LayoutNode::Pane {
                cwd,
                command,
                env,
                label,
                pane_id: None,
            },
            LayoutNode::Split { direction, ratio, first, second } => LayoutNode::Split {
                direction,
                ratio,
                first: Box::new((*first).into_saved()),
                second: Box::new((*second).into_saved()),
            },
        }
    }
}

/// Whether two optional texts are the same.
fn same_option(a: &Option<String>, b: &Option<String>) -> (result: bool)
    ensures
        result == (a.deep_view() == b.deep_view()),
{
    match (a, b) {
        (Some(a), Some(b)) => *a == *b,
        (None, None) => true,
        _ => false,
    }
}

/// Whether two lists hold the same texts.
fn same_list(a: &Vec<String>, b: &Vec<String>) -> (result: bool)
    ensures
        result == (a.deep_view() == b.deep_view()),
{
    if a.len() != b.len() {
        assert(a.deep_view().len() != b.deep_view().len());
        return false;
    }
    for i in 0..a.len()
        invariant
            a@.len() == b@.len(),
            forall|j: int| 0 <= j < i ==> #[trigger] a.deep_view()[j] == b.deep_view()[j],
    {
        if a[i] != b[i] {
            assert(a.deep_view()[i as int] != b.deep_view()[i as int]);
            return false;
        }
    }
    assert(a.deep_view() =~= b.deep_view());
    true
}

/// Whether two optional lists hold the same texts.
fn same_option_list(a: &Option<Vec<String>>, b: &Option<Vec<String>>) -> (result: bool)
    ensures
        result == (a.deep_view() == b.deep_view()),
{
    match (a, b) {
        (Some(a), Some(b)) => same_list(a, b),
        (None, None) => true,
        _ => false,
    }
}

/// Whether every entry of `a` stands in `b` with the same value.
fn within(a: &TextMap<String>, b: &TextMap<String>) -> (result: bool)
    ensures
        result == a.deep_view().submap_of(b.deep_view()),
{
    let n: usize = a.len();
    for i in 0..n
        invariant
            n == a.keys().len(),
            a.keys().to_set() == a@.dom(),
            forall|j: int|
                #![trigger a.keys()[j]]
                0 <= j < i ==> b@.contains_key(a.keys()[j]) && b@[a.keys()[j]]@
                    == a@[a.keys()[j]]@,
    {
        let key = a.key(i);
        let found = match b.get(key.as_str()) {
            Some(value) => *value == *a.value(i),
            None => false,
        };
        if !found {
            assert(!a.deep_view().submap_of(b.deep_view())) by {
                let m = a.deep_view();
                let m2 = b.deep_view();
                if m.submap_of(m2) {
                    assert(m.dom().contains(key@));
                    assert(m2.dom().contains(key@));
                    assert(m[key@] == m2[key@]);
                }
            }
            return false;
        }
    }
    assert forall|key: Text| #[trigger] a.deep_view().dom().contains(key) implies b.deep_view().dom().contains(key)
        && a.deep_view()[key] == b.deep_view()[key] by {
        assert(a.keys().to_set().contains(key));
        let j = choose|j: int| 0 <= j < a.keys().len() && a.keys()[j] == key;
        assert(b@.contains_key(a.keys()[j]));
    }
    true
}

/// Whether two maps hold the same entries.
fn same_entries(a: &TextMap<String>, b: &TextMap<String>) -> (result: bool)
    ensures
        result == (a.deep_view() == b.deep_view()),
{
    let result = within(a, b) && within(b, a);
    assert(result ==> a.deep_view() =~= b.deep_view());
    result
}

impl LayoutNode {
    /// Whether two layouts are saved alike.
    pub fn same_saved(&self, other: &LayoutNode) -> (result: bool)
        ensures
            result == (self.tree().saved() == other.tree().saved()),
        decreases self,
    {
        match (self, other) {
            (
                LayoutNode::Pane { cwd: a_cwd, command: a_command, env: a_env, label: a_label, .. },
                LayoutNode::Pane { cwd: b_cwd, command: b_command, env: b_env, label: b_label, .. },
            ) => same_option(a_cwd, b_cwd) && same_option_list(a_command, b_command)
                && same_entries(a_env, b_env) && same_option(a_label, b_label),
            (
                LayoutNode::Split { direction: a_dir, ratio: a_ratio, first: a1, second: a2 },
                LayoutNode::Split { direction: b_dir, ratio: b_ratio, first: b1, second: b2 },
            ) => *a_dir == *b_dir && *a_ratio == *b_ratio && a1.same_saved(b1) && a2.same_saved(b2),
            _ => false,
        }
    }
}

impl Definition {
    /// Whether two definitions are saved alike.
    pub fn same_saved(&self, other: &Definition) -> (result: bool)
        ensures
            result == (self.deep_view().saved() == other.deep_view().saved()),
    {
        let ghost a = self.deep_view().saved();
        let ghost b = other.deep_view().saved();
        if self.label != other.label || self.tabs.len() != other.tabs.len() {
            assert(a.label != b.label || a.tabs.len() != b.tabs.len());
            return false;
        }
        for i in 0..self.tabs.len()
            invariant
                a == self.deep_view().saved(),
                b == other.deep_view().saved(),
                self.tabs@.len() == other.tabs@.len(),
                forall|j: int| 0 <= j < i ==> #[trigger] a.tabs[j] == b.tabs[j],
        {
            let x = &self.tabs[i];
            let y = &other.tabs[i];
            assert(a.tabs[i as int] == x.deep_view().saved());
            assert(b.tabs[i as int] == y.deep_view().saved());
            if !(same_option(&x.label, &y.label) && x.active == y.active && x.root.same_saved(
                &y.root,
            )) {
                return false;
            }
        }
        assert(a.tabs =~= b.tabs);
        true
    }

    /// The definition as it is saved: without a word on which panes are running.
    pub fn into_saved(self) -> (result: Definition)
        ensures
            result.deep_view() == self.deep_view().saved(),
    {
        let ghost model = self.deep_view();
        let Definition { label, tabs } = self;
        let ghost all = tabs.deep_view();
        let mut saved: Vec<TabDefinition> = Vec::new();
        assert(saved.deep_view() =~= all.take(0).map_values(|tab: TabView| tab.saved()));
        for tab in it: tabs
            invariant
                all.len() == it.seq().len(),
                forall|j: int| 0 <= j < all.len() ==> #[trigger] all[j] == it.seq()[j].deep_view(),
                saved.deep_view() == all.take(it.index() as int).map_values(
                    |tab: TabView| tab.saved(),
                ),
        {
            let ghost before = saved.deep_view();
            let TabDefinition { label, active, root } = tab;
            let next = TabDefinition { label, active, root: root.into_saved() };
            let ghost added = next.deep_view();
            saved.push(next);
            proof {
                let i = it.index() as int;
                assert(added == all[i].saved());
                assert(saved.deep_view() =~= before.push(added));
                assert(saved.deep_view() =~= all.take(i + 1).map_values(
                    |tab: TabView| tab.saved(),
                ));
            }
        }
        proof {
            assert(all.take(all.len() as int) =~= all);
            assert(saved.deep_view() =~= model.saved().tabs);
        }
        Definition { label, tabs: saved }
    }

    /// The definition that a file holds. A file of the older format describes the
    /// only tab of its workspace, which has the workspace's label.
    pub fn from(stored: StoredDefinition) -> (result: Definition)
        ensures
            result.deep_view() == stored.deep_view().definition(),
    {
        match stored {
            StoredDefinition::Tabs(definition) => definition,
            StoredDefinition::Legacy { label, root } => {
                let mut tabs: Vec<TabDefinition> = Vec::new();
                tabs.push(TabDefinition { label: Some(label.clone()), active: true, root });
                let result = Definition { label, tabs };
                assert(result.deep_view().tabs =~= stored.deep_view().definition().tabs);
                result
            },
        }
    }
}

/// The definitions that files hold, by their labels. Of two files with one label
/// the later one counts.
pub open spec fn by_label(stored: Seq<StoredView>) -> Map<Text, DefinitionView>
    decreases stored.len(),
{
    if stored.len() == 0 {
        Map::empty()
    } else {
        let definition = stored.last().definition();
        by_label(stored.drop_last()).insert(definition.label, definition)
    }
}

/// Orders the definitions that files hold by their labels. Of two files with one
/// label the later one counts.
pub fn load_definitions(stored: Vec<StoredDefinition>) -> (result: TextMap<Definition>)
    ensures
        result.deep_view() == by_label(stored.deep_view()),
{
    let ghost all = stored.deep_view();
    let mut result: TextMap<Definition> = TextMap::new();
    assert(result.deep_view() =~= by_label(all.take(0)));
    for item in it: stored
        invariant
            all.len() == it.seq().len(),
            forall|j: int| 0 <= j < all.len() ==> #[trigger] all[j] == it.seq()[j].deep_view(),
            result.deep_view() == by_label(all.take(it.index() as int)),
    {
        let definition = Definition::from(item);
        let label = definition.label.clone();
        result.insert(label, definition);
        proof {
            let i = it.index() as int;
            assert(all.take(i + 1).drop_last() =~= all.take(i));
            assert(all.take(i + 1).last() == all[i]);
            assert(result.deep_view() =~= by_label(all.take(i + 1)));
        }
    }
    assert(all.take(all.len() as int) =~= all);
    result
}

/// Looks up the definition of a workspace among those that files hold.
pub fn find_definition(stored: Vec<StoredDefinition>, label: &str) -> (result: Option<Definition>)
    ensures
        result.deep_view() == by_label(stored.deep_view()).get(label@),
{
    let mut definitions = load_definitions(stored);
    definitions.remove(label)
}

impl LayoutView {
    /// The tree without its commands.
    pub open spec fn bare(self) -> LayoutView
        decreases self,
    {
        match self {
            LayoutView::Pane { cwd, command, env, label, pane_id } => LayoutView::Pane {
                cwd,
                command: None,
                env,
                label,
                pane_id,
            },
            LayoutView::Split { direction, ratio, first, second } => LayoutView::Split {
                direction,
                ratio,
                first: Box::new(first.bare()),
                second: Box::new(second.bare()),
            },
        }
    }
}

impl DefinitionView {
    /// Whether the definition has no word on which panes are running.
    pub open spec fn names_no_pane(self) -> bool {
        forall|i: int| 0 <= i < self.tabs.len() ==> (#[trigger] self.tabs[i]).root.pane_ids().len() == 0
    }
}

/// Putting commands into a layout changes nothing but the commands.
pub proof fn commands_change_nothing_else(tree: LayoutView, found: Seq<Option<Seq<Text>>>)
    ensures
        tree.with_commands(found).bare() == tree.bare(),
        tree.with_commands(found).pane_ids() == tree.pane_ids(),
    decreases tree,
{
    if let LayoutView::Split { direction, ratio, first, second } = tree {
        let n = first.pane_ids().len() as int;
        commands_change_nothing_else(*first, found.take(n));
        commands_change_nothing_else(*second, found.skip(n));
    }
}

/// Where nothing was found to run, the layout stays as it is.
pub proof fn nothing_found_changes_nothing(tree: LayoutView, found: Seq<Option<Seq<Text>>>)
    requires
        found.len() == tree.pane_ids().len(),
        forall|i: int| 0 <= i < found.len() ==> (#[trigger] found[i]) is None,
    ensures
        tree.with_commands(found) == tree,
    decreases tree,
{
    match tree {
        LayoutView::Split { direction, ratio, first, second } => {
            let n = first.pane_ids().len() as int;
            nothing_found_changes_nothing(*first, found.take(n));
            nothing_found_changes_nothing(*second, found.skip(n));
        },
        LayoutView::Pane { pane_id, .. } => {
            if pane_id is Some {
                assert(found[0] is None);
            }
        },
    }
}

/// What is saved of a layout names no running pane, and saving it once more changes
/// nothing.
pub proof fn saved_names_no_pane(tree: LayoutView)
    ensures
        tree.saved().pane_ids().len() == 0,
        tree.saved().saved() == tree.saved(),
    decreases tree,
{
    if let LayoutView::Split { direction, ratio, first, second } = tree {
        saved_names_no_pane(*first);
        saved_names_no_pane(*second);
    }
}

/// Definitions are kept under their own labels.
pub proof fn kept_under_own_label(stored: Seq<StoredView>, label: Text)
    requires
        by_label(stored).contains_key(label),
    ensures
        by_label(stored)[label].label == label,
    decreases stored.len(),
{
    if stored.len() > 0 {
        if label != stored.last().definition().label {
            kept_under_own_label(stored.drop_last(), label);
        }
    }
}

/// The definition that a file holds is found under its label, unless a later file
/// has the same label.
pub proof fn stored_definition_is_found(stored: Seq<StoredView>, i: int)
    requires
        0 <= i < stored.len(),
        forall|j: int|
            i < j < stored.len() ==> (#[trigger] stored[j]).definition().label
                != stored[i].definition().label,
    ensures
        by_label(stored).get(stored[i].definition().label) == Some(stored[i].definition()),
    decreases stored.len(),
{
    let rest = stored.drop_last();
    if i < stored.len() - 1 {
        assert(stored[stored.len() - 1].definition().label != stored[i].definition().label);
        assert forall|j: int| i < j < rest.len() implies (#[trigger] rest[j]).definition().label
            != rest[i].definition().label by {
            assert(rest[j] == stored[j]);
        }
        stored_definition_is_found(rest, i);
    }
}

/// A label under which no file holds a definition is not found.
pub proof fn missing_definition_is_not_found(stored: Seq<StoredView>, label: Text)
    requires
        forall|j: int|
            0 <= j < stored.len() ==> (#[trigger] stored[j]).definition().label != label,
    ensures
        by_label(stored).get(label) is None,
    decreases stored.len(),
{
    if stored.len() > 0 {
        let rest = stored.drop_last();
        assert(stored[stored.len() - 1].definition().label != label);
        assert forall|j: int| 0 <= j < rest.len() implies (#[trigger] rest[j]).definition().label
            != label by {
            assert(rest[j] == stored[j]);
        }
        missing_definition_is_not_found(rest, label);
    }
}

/// Saving a definition once more changes nothing.
pub proof fn saving_twice_changes_nothing(definition: DefinitionView)
    ensures
        definition.saved().saved() == definition.saved(),
        definition.saved().names_no_pane(),
{
    let once = definition.saved();
    let twice = once.saved();
    assert forall|i: int| 0 <= i < once.tabs.len() implies #[trigger] twice.tabs[i] == once.tabs[i]
        && once.tabs[i].root.pane_ids().len() == 0 by {
        saved_names_no_pane(definition.tabs[i].root);
    }
    assert(twice.tabs =~= once.tabs);
    assert forall|i: int| 0 <= i < once.tabs.len() implies (#[trigger] once.tabs[i]).root.pane_ids().len()
        == 0 by {
        assert(twice.tabs[i] == once.tabs[i]);
    }
}

/// There are as many labels as files at most: the definitions can be listed.
pub proof fn labels_are_finite(stored: Seq<StoredView>)
    ensures
        by_label(stored).dom().finite(),
    decreases stored.len(),
{
    if stored.len() > 0 {
        labels_are_finite(stored.drop_last());
    }
}

/// A label that some file has is known.
pub proof fn stored_label_is_known(stored: Seq<StoredView>, i: int)
    requires
        0 <= i < stored.len(),
    ensures
        by_label(stored).contains_key(stored[i].definition().label),
    decreases stored.len(),
{
    if i < stored.len() - 1 {
        stored_label_is_known(stored.drop_last(), i);
    }
}

impl LayoutView {
    /// The part of the layout that a path leads to. At each split the path goes on to
    /// the second part or to the first.
    pub open spec fn part(self, path: Seq<bool>) -> Option<LayoutView>
        decreases path.len(),
    {
        if path.len() == 0 {
            Some(self)
        } else {
            match self {
                LayoutView::Split { first, second, .. } => if path[0] {
                    second.part(path.drop_first())
                } else {
                    first.part(path.drop_first())
                },
                LayoutView::Pane { .. } => None,
            }
        }
    }

    /// The running panes themselves, the first part of a split before the second.
    pub open spec fn running_panes(self) -> Seq<LayoutView>
        decreases self,
    {
        match self {
            LayoutView::Pane { pane_id: Some(_), .. } => seq![self],
            LayoutView::Pane { pane_id: None, .. } => Seq::empty(),
            LayoutView::Split { first, second, .. } => first.running_panes()
                + second.running_panes(),
        }
    }

    /// The command of a pane.
    pub open spec fn pane_command(self) -> Option<Seq<Text>> {
        match self {
            LayoutView::Pane { command, .. } => command,
            LayoutView::Split { .. } => None,
        }
    }

    /// The id of a running pane.
    pub open spec fn pane_name(self) -> Option<Text> {
        match self {
            LayoutView::Pane { pane_id, .. } => pane_id,
            LayoutView::Split { .. } => None,
        }
    }
}

/// Whether two places in layouts are alike, leaving open what the parts of a split are:
/// both are missing; or both are panes that differ in `command` and `pane_id` at most;
/// or both are splits in the same direction with the same ratio.
pub open spec fn same_place(a: Option<LayoutView>, b: Option<LayoutView>) -> bool {
    match (a, b) {
        (None, None) => true,
        (
            Some(LayoutView::Pane { cwd: a_cwd, env: a_env, label: a_label, .. }),
            Some(LayoutView::Pane { cwd: b_cwd, env: b_env, label: b_label, .. }),
        ) => a_cwd == b_cwd && a_env == b_env && a_label == b_label,
        (
            Some(LayoutView::Split { direction: a_direction, ratio: a_ratio, .. }),
            Some(LayoutView::Split { direction: b_direction, ratio: b_ratio, .. }),
        ) => a_direction == b_direction && a_ratio == b_ratio,
        _ => false,
    }
}

/// The running panes are inspected one by one: each has its own place in the list of
/// their ids, wherever it is in the layout.
pub proof fn every_running_pane_is_listed(tree: LayoutView)
    ensures
        tree.pane_ids().len() == tree.running_panes().len(),
        forall|i: int|
            0 <= i < tree.pane_ids().len() ==> Some(#[trigger] tree.pane_ids()[i])
                == tree.running_panes()[i].pane_name(),
    decreases tree,
{
    if let LayoutView::Split { first, second, .. } = tree {
        every_running_pane_is_listed(*first);
        every_running_pane_is_listed(*second);
        let n = first.pane_ids().len() as int;
        assert forall|i: int| 0 <= i < tree.pane_ids().len() implies Some(
            #[trigger] tree.pane_ids()[i],
        ) == tree.running_panes()[i].pane_name() by {
            if i < n {
                assert(tree.pane_ids()[i] == first.pane_ids()[i]);
            } else {
                assert(tree.pane_ids()[i] == second.pane_ids()[i - n]);
            }
        }
    }
}

/// Every pane that a path leads to and that has an id is listed under that id.
pub proof fn pane_at_path_is_listed(tree: LayoutView, path: Seq<bool>)
    requires
        tree.part(path) is Some,
        tree.part(path)->0.pane_name() is Some,
    ensures
        tree.pane_ids().contains(tree.part(path)->0.pane_name()->0),
    decreases path.len(),
{
    if path.len() == 0 {
        assert(tree.pane_ids()[0] == tree.pane_name()->0);
    } else if let LayoutView::Split { first, second, .. } = tree {
        let name = tree.part(path)->0.pane_name()->0;
        let a = first.pane_ids();
        let b = second.pane_ids();
        if path[0] {
            pane_at_path_is_listed(*second, path.drop_first());
            let i = choose|i: int| 0 <= i < b.len() && b[i] == name;
            assert(tree.pane_ids()[a.len() + i] == name);
        } else {
            pane_at_path_is_listed(*first, path.drop_first());
            let i = choose|i: int| 0 <= i < a.len() && a[i] == name;
            assert(tree.pane_ids()[i] == name);
        }
    }
}

/// The command that was found for the running pane number `i` is the one that it gets,
/// at any depth of the layout; a pane for which none was found keeps its own.
pub proof fn every_running_pane_gets_its_command(tree: LayoutView, found: Seq<Option<Seq<Text>>>)
    requires
        found.len() == tree.pane_ids().len(),
    ensures
        ({
            let before = tree.running_panes();
            let after = tree.with_commands(found).running_panes();
            &&& before.len() == found.len()
            &&& after.len() == found.len()
            &&& forall|i: int|
                0 <= i < found.len() ==> {
                    &&& (#[trigger] after[i]).pane_name() == Some(tree.pane_ids()[i])
                    &&& same_place(Some(before[i]), Some(after[i]))
                    &&& after[i].pane_command() == if found[i] is Some {
                        found[i]
                    } else {
                        before[i].pane_command()
                    }
                }
        }),
    decreases tree,
{
    every_running_pane_is_listed(tree);
    if let LayoutView::Split { first, second, .. } = tree {
        let n = first.pane_ids().len() as int;
        every_running_pane_gets_its_command(*first, found.take(n));
        every_running_pane_gets_its_command(*second, found.skip(n));
        let before = tree.running_panes();
        let after = tree.with_commands(found).running_panes();
        let a = first.with_commands(found.take(n)).running_panes();
        let b = second.with_commands(found.skip(n)).running_panes();
        assert(after =~= a + b);
        assert forall|i: int| 0 <= i < found.len() implies {
            &&& (#[trigger] after[i]).pane_name() == Some(tree.pane_ids()[i])
            &&& same_place(Some(before[i]), Some(after[i]))
            &&& after[i].pane_command() == if found[i] is Some {
                found[i]
            } else {
                before[i].pane_command()
            }
        } by {
            if i < n {
                assert(after[i] == a[i]);
                assert(before[i] == first.running_panes()[i]);
                assert(found.take(n)[i] == found[i]);
                assert(tree.pane_ids()[i] == first.pane_ids()[i]);
            } else {
                assert(after[i] == b[i - n]);
                assert(before[i] == second.running_panes()[i - n]);
                assert(found.skip(n)[i - n] == found[i]);
                assert(tree.pane_ids()[i] == second.pane_ids()[i - n]);
            }
        }
    }
}

/// Wherever a path leads, putting commands into a layout leaves all but the command as
/// it is. A running pane gets what was found for its id, and any other pane keeps its
/// command.
pub proof fn commands_go_to_their_panes(
    tree: LayoutView,
    found: Seq<Option<Seq<Text>>>,
    path: Seq<bool>,
)
    requires
        found.len() == tree.pane_ids().len(),
    ensures
        ({
            let before = tree.part(path);
            let after = tree.with_commands(found).part(path);
            &&& same_place(before, after)
            &&& before is Some ==> after->0.pane_name() == before->0.pane_name()
            &&& before is Some && before->0.pane_name() is None ==> after->0.pane_command()
                == before->0.pane_command()
            &&& before is Some && before->0.pane_name() is Some ==> exists|i: int|
                {
                    &&& 0 <= i < found.len()
                    &&& #[trigger] tree.pane_ids()[i] == before->0.pane_name()->0
                    &&& after->0.pane_command() == if found[i] is Some {
                        found[i]
                    } else {
                        before->0.pane_command()
                    }
                }
        }),
    decreases path.len(),
{
    let before = tree.part(path);
    let after = tree.with_commands(found).part(path);
    if path.len() == 0 {
        if tree.pane_name() is Some {
            assert(tree.pane_ids()[0] == tree.pane_name()->0);
        }
    } else if let LayoutView::Split { first, second, .. } = tree {
        let n = first.pane_ids().len() as int;
        if path[0] {
            commands_go_to_their_panes(*second, found.skip(n), path.drop_first());
            if before is Some && before->0.pane_name() is Some {
                let i = choose|i: int|
                    {
                        &&& 0 <= i < found.skip(n).len()
                        &&& #[trigger] second.pane_ids()[i] == before->0.pane_name()->0
                        &&& after->0.pane_command() == if found.skip(n)[i] is Some {
                            found.skip(n)[i]
                        } else {
                            before->0.pane_command()
                        }
                    };
                assert(tree.pane_ids()[n + i] == before->0.pane_name()->0);
            }
        } else {
            commands_go_to_their_panes(*first, found.take(n), path.drop_first());
            if before is Some && before->0.pane_name() is Some {
                let i = choose|i: int|
                    {
                        &&& 0 <= i < found.take(n).len()
                        &&& #[trigger] first.pane_ids()[i] == before->0.pane_name()->0
                        &&& after->0.pane_command() == if found.take(n)[i] is Some {
                            found.take(n)[i]
                        } else {
                            before->0.pane_command()
                        }
                    };
                assert(tree.pane_ids()[i] == before->0.pane_name()->0);
            }
        }
    }
}

/// Wherever a path leads, saving a layout drops the id of a running pane and nothing
/// else.
pub proof fn saving_drops_only_ids(tree: LayoutView, path: Seq<bool>)
    ensures
        same_place(tree.part(path), tree.saved().part(path)),
        tree.part(path) is Some ==> {
            &&& tree.saved().part(path)->0.pane_command() == tree.part(path)->0.pane_command()
            &&& tree.saved().part(path)->0.pane_name() is None
        },
    decreases path.len(),
{
    if path.len() > 0 {
        if let LayoutView::Split { first, second, .. } = tree {
            if path[0] {
                saving_drops_only_ids(*second, path.drop_first());
            } else {
                saving_drops_only_ids(*first, path.drop_first());
            }
        }
    }
}

/// Two layouts are saved alike exactly where they agree at every path, but for the ids of
/// running panes: same splits, same directories, environments, labels and commands.
pub proof fn saved_alike_means_the_same_everywhere(a: LayoutView, b: LayoutView)
    ensures
        a.saved() == b.saved() <==> forall|path: Seq<bool>| #[trigger]
            same_place(a.part(path), b.part(path)) && (a.part(path) is Some
                ==> a.part(path)->0.pane_command() == b.part(path)->0.pane_command()),
    decreases a,
{
    if a.saved() == b.saved() {
        assert forall|path: Seq<bool>| #[trigger]
            same_place(a.part(path), b.part(path)) && (a.part(path) is Some
                ==> a.part(path)->0.pane_command() == b.part(path)->0.pane_command()) by {
            saving_drops_only_ids(a, path);
            saving_drops_only_ids(b, path);
        }
    }
    if forall|path: Seq<bool>| #[trigger]
        same_place(a.part(path), b.part(path)) && (a.part(path) is Some
            ==> a.part(path)->0.pane_command() == b.part(path)->0.pane_command()) {
        let here = Seq::<bool>::empty();
        assert(same_place(a.part(here), b.part(here)));
        if let (
            LayoutView::Split { first: a1, second: a2, .. },
            LayoutView::Split { first: b1, second: b2, .. },
        ) = (a, b) {
            assert forall|path: Seq<bool>| #[trigger]
                same_place(a1.part(path), b1.part(path)) && (a1.part(path) is Some
                    ==> a1.part(path)->0.pane_command() == b1.part(path)->0.pane_command()) by {
                let longer = seq![false] + path;
                assert(longer.drop_first() =~= path);
                assert(same_place(a.part(longer), b.part(longer)));
            }
            assert forall|path: Seq<bool>| #[trigger]
                same_place(a2.part(path), b2.part(path)) && (a2.part(path) is Some
                    ==> a2.part(path)->0.pane_command() == b2.part(path)->0.pane_command()) by {
                let longer = seq![true] + path;
                assert(longer.drop_first() =~= path);
                assert(same_place(a.part(longer), b.part(longer)));
            }
            saved_alike_means_the_same_everywhere(*a1, *b1);
            saved_alike_means_the_same_everywhere(*a2, *b2);
        }
    }
}

/// What is saved of a definition is its label and every tab in its place, with its label
/// and its mark; of the layouts nothing is dropped but the ids of running panes.
pub proof fn saving_keeps_every_tab(definition: DefinitionView, i: int, path: Seq<bool>)
    requires
        0 <= i < definition.tabs.len(),
    ensures
        ({
            let saved = definition.saved();
            let before = definition.tabs[i];
            let after = saved.tabs[i];
            &&& saved.label == definition.label
            &&& saved.tabs.len() == definition.tabs.len()
            &&& after.label == before.label
            &&& after.active == before.active
            &&& same_place(before.root.part(path), after.root.part(path))
            &&& before.root.part(path) is Some ==> {
                &&& after.root.part(path)->0.pane_command() == before.root.part(
                    path,
                )->0.pane_command()
                &&& after.root.part(path)->0.pane_name() is None
            }
        }),
{
    saving_drops_only_ids(definition.tabs[i].root, path);
}

/// Two definitions are saved alike exactly where they have the same label and the same
/// tabs in the same order, with the same labels, marks and layouts.
pub proof fn same_saved_means_the_same_tabs(a: DefinitionView, b: DefinitionView)
    ensures
        a.saved() == b.saved() <==> a.label == b.label && a.tabs.len() == b.tabs.len() && forall|
            i: int,
        |
            0 <= i < a.tabs.len() ==> {
                &&& (#[trigger] a.tabs[i]).label == b.tabs[i].label
                &&& a.tabs[i].active == b.tabs[i].active
                &&& a.tabs[i].root.saved() == b.tabs[i].root.saved()
            },
{
    let x = a.saved();
    let y = b.saved();
    if x == y {
        assert(x.tabs.len() == a.tabs.len() && y.tabs.len() == b.tabs.len());
        assert forall|i: int| 0 <= i < a.tabs.len() implies {
            &&& (#[trigger] a.tabs[i]).label == b.tabs[i].label
            &&& a.tabs[i].active == b.tabs[i].active
            &&& a.tabs[i].root.saved() == b.tabs[i].root.saved()
        } by {
            assert(x.tabs[i] == a.tabs[i].saved());
            assert(y.tabs[i] == b.tabs[i].saved());
        }
    }
    if a.label == b.label && a.tabs.len() == b.tabs.len() && forall|i: int|
        0 <= i < a.tabs.len() ==> {
            &&& (#[trigger] a.tabs[i]).label == b.tabs[i].label
            &&& a.tabs[i].active == b.tabs[i].active
            &&& a.tabs[i].root.saved() == b.tabs[i].root.saved()
        } {
        assert forall|i: int| 0 <= i < x.tabs.len() implies x.tabs[i] == y.tabs[i] by {
            assert(a.tabs[i].label == b.tabs[i].label);
        }
        assert(x.tabs =~= y.tabs);
    }
}

/// A file with tabs holds its definition as it is. A file of the older format holds a
/// workspace of one tab: that tab is selected, has the workspace's label, and its layout
/// is the one in the file, with every pane.
pub proof fn stored_definition_is_complete(stored: StoredView)
    ensures
        match stored {
            StoredView::Tabs(definition) => stored.definition() == definition,
            StoredView::Legacy { label, root } => {
                let definition = stored.definition();
                &&& definition.label == label
                &&& definition.tabs.len() == 1
                &&& definition.tabs[0].label == Some(label)
                &&& definition.tabs[0].active
                &&& definition.tabs[0].root == root
            },
        },
{
}

/// All definitions that are known come out of files.
pub proof fn known_definition_is_stored(stored: Seq<StoredView>, label: Text) -> (i: int)
    requires
        by_label(stored).contains_key(label),
    ensures
        0 <= i < stored.len(),
        by_label(stored)[label] == stored[i].definition(),
        stored[i].definition().label == label,
    decreases stored.len(),
{
    let last = stored.len() - 1;
    if stored[last].definition().label == label {
        last
    } else {
        known_definition_is_stored(stored.drop_last(), label)
    }
}

} // verus!
