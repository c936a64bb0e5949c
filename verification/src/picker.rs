//! Choosing among the saved and the running workspaces.

use crate::definition::{Definition, DefinitionView};
use crate::protocol::{Workspace, WorkspaceView};
use crate::text::{after_line, characters, find, first_line, framed, joined, line_and_rest_make_the_text, place_is_the_first, place_of, same_text, string_of, Text};
use crate::text_map::{ascending, in_order, in_order_is_ascending, TextMap};
use vstd::prelude::*;

verus! {

/// Whether a workspace with the given label is running.
pub open spec fn is_running(workspaces: Seq<WorkspaceView>, label: Text) -> bool {
    exists|i: int| 0 <= i < workspaces.len() && #[trigger] workspaces[i].label == label
}

/// The labels to choose from, each with whether a workspace of that label is running.
pub open spec fn rows(saved: Set<Text>, workspaces: Seq<WorkspaceView>) -> Map<Text, bool> {
    Map::new(
        |label: Text| saved.contains(label) || is_running(workspaces, label),
        |label: Text| is_running(workspaces, label),
    )
}

/// The line that offers a label.
pub open spec fn row_line(label: Text, running: bool) -> Text {
    (if running {
        "●"@
    } else {
        "○"@
    }) + "\t"@ + label
}

/// The lines that offer the given labels, one below the other.
pub open spec fn listed(labels: Seq<Text>, rows: Map<Text, bool>) -> Text
    decreases labels.len(),
{
    if labels.len() == 0 {
        Seq::empty()
    } else {
        let line = row_line(labels.last(), rows[labels.last()]);
        if labels.len() == 1 {
            line
        } else {
            listed(labels.drop_last(), rows) + "\n"@ + line
        }
    }
}

/// What the user is shown: all labels in ascending order.
pub open spec fn listing(rows: Map<Text, bool>) -> Text {
    listed(in_order(rows.dom()), rows)
}

/// The lines that the user chooses from; `None` where there is nothing to choose.
pub fn list_rows(definitions: &TextMap<Definition>, workspaces: &Vec<Workspace>) -> (result: Option<
    String,
>)
    ensures
        ({
            let rows = rows(definitions.deep_view().dom(), workspaces.deep_view());
            match result {
                None => rows.dom() == Set::<Text>::empty(),
                Some(lines) => rows.dom() != Set::<Text>::empty() && lines@ == listing(rows),
            }
        }),
{
    let rows = collect_rows(definitions, workspaces);
    let n: usize = rows.len();
    if n == 0 {
        proof {
            assert(rows@.dom() =~= Set::<Text>::empty()) by {
                assert(rows.keys() =~= Seq::<Text>::empty());
                assert forall|label: Text| !rows@.dom().contains(label) by {
                    if rows@.dom().contains(label) {
                        assert(rows.keys().to_set().contains(label));
                    }
                }
            }
        }
        return None;
    }
    let mut lines = String::new();
    let ghost keys = rows.keys();
    assert(keys.take(0) =~= Seq::<Text>::empty());
    for i in 0..n
        invariant
            n == rows.keys().len(),
            keys == rows.keys(),
            lines@ == listed(keys.take(i as int), rows@),
    {
        if i > 0 {
            lines.append("\n");
        }
        let mark = if *rows.value(i) {
            "●"
        } else {
            "○"
        };
        let label = rows.key(i);
        lines.append(framed(mark, "\t", label.as_str()).as_str());
        proof {
            let next = keys.take(i + 1);
            assert(next.drop_last() =~= keys.take(i as int));
            assert(next.last() == keys[i as int]);
            if i == 0 {
                assert(lines@ =~= row_line(label@, rows@[label@]));
            } else {
                assert(lines@ =~= listed(keys.take(i as int), rows@) + "\n"@ + row_line(
                    label@,
                    rows@[label@],
                ));
            }
        }
    }
    proof {
        assert(keys.take(n as int) =~= keys);
        assert(rows.keys().to_set().contains(keys[0]));
        assert(rows@.dom().contains(keys[0]));
    }
    Some(lines)
}

/// The labels to choose from.
fn collect_rows(definitions: &TextMap<Definition>, workspaces: &Vec<Workspace>) -> (result: TextMap<
    bool,
>)
    ensures
        result@ == rows(definitions.deep_view().dom(), workspaces.deep_view()),
{
    let mut result: TextMap<bool> = TextMap::new();
    let n: usize = definitions.len();
    for i in 0..n
        invariant
            n == definitions.keys().len(),
            forall|label: Text|
                #[trigger] result@.contains_key(label) <==> definitions.keys().take(
                    i as int,
                ).contains(label),
            forall|label: Text| #[trigger] result@.contains_key(label) ==> !result@[label],
    {
        let key = definitions.key(i).clone();
        result.insert(key, false);
        proof {
            let before = definitions.keys().take(i as int);
            let after = definitions.keys().take(i + 1);
            assert(after =~= before.push(key@));
            assert forall|label: Text| after.contains(label) == (before.contains(label) || label
                == key@) by {
                if before.contains(label) {
                    let j = choose|j: int| 0 <= j < before.len() && before[j] == label;
                    assert(after[j] == label);
                }
                assert(after[i as int] == key@);
            }
        }
    }
    let ghost saved = definitions.deep_view().dom();
    proof {
        assert(definitions.keys().take(n as int) =~= definitions.keys());
        assert(saved =~= definitions@.dom());
        assert forall|label: Text| #[trigger] result@.contains_key(label) <==> saved.contains(
            label,
        ) by {
            assert(definitions.keys().to_set().contains(label) <==> saved.contains(label));
        }
        assert(result@ =~= rows(saved, workspaces.deep_view().take(0)));
    }
    for i in 0..workspaces.len()
        invariant
            result@ == rows(saved, workspaces.deep_view().take(i as int)),
    {
        let label = workspaces[i].label.clone();
        result.insert(label, true);
        proof {
            let before = workspaces.deep_view().take(i as int);
            let after = workspaces.deep_view().take(i + 1);
            assert(after =~= before.push(workspaces@[i as int].deep_view()));
            assert forall|other: Text| is_running(after, other) == (is_running(before, other)
                || other == label@) by {
                if is_running(before, other) {
                    let j = choose|j: int|
                        0 <= j < before.len() && #[trigger] before[j].label == other;
                    assert(after[j].label == other);
                }
                assert(after[i as int].label == label@);
            }
            assert(result@ =~= rows(saved, after));
        }
    }
    assert(workspaces.deep_view().take(workspaces@.len() as int) =~= workspaces.deep_view());
    result
}

/// What was chosen, by what the picker printed: the key that ended it on the first
/// line, and on the second one the row, whose label follows a tab. `None` where no
/// label was chosen.
pub open spec fn picked(output: Text) -> Option<(Text, Text)> {
    let row = first_line(after_line(output));
    let tab = place_of(row, '\t') as int;
    if tab + 1 < row.len() {
        Some((first_line(output), row.skip(tab + 1)))
    } else {
        None
    }
}

/// The end of the line that starts at `from`, without its line ending, and where the
/// next line starts.
fn line_bounds(chars: &Vec<char>, from: usize) -> (result: (usize, usize))
    requires
        from <= chars@.len(),
    ensures
        from <= result.0 <= chars@.len(),
        from <= result.1 <= chars@.len(),
        chars@.subrange(from as int, result.0 as int) == first_line(chars@.skip(from as int)),
        chars@.skip(result.1 as int) == after_line(chars@.skip(from as int)),
{
    let end = find(chars, from, '\n');
    let ghost rest = chars@.skip(from as int);
    proof {
        assert(rest.take(end - from) =~= chars@.subrange(from as int, end as int));
        if from < end {
            assert(rest.take(end - from - 1) =~= chars@.subrange(from as int, end - 1));
        }
        if end < chars@.len() {
            assert(rest.skip(end - from + 1) =~= chars@.skip(end + 1));
        } else {
            assert(chars@.skip(end as int) =~= Seq::<char>::empty());
        }
    }
    let next: usize = if end < chars.len() {
        end + 1
    } else {
        end
    };
    if from < end && end < chars.len() && chars[end - 1] == '\r' {
        (end - 1, next)
    } else {
        (end, next)
    }
}

/// What was chosen, by what the picker printed: the key that ended it and the label.
pub fn read_pick(output: &str) -> (result: Option<(String, String)>)
    ensures
        result.deep_view() == picked(output@),
{
    let chars = characters(output);
    assert(chars@.skip(0) =~= chars@);
    let (key_end, row_start) = line_bounds(&chars, 0);
    let (row_end, _) = line_bounds(&chars, row_start);
    let row = characters(string_of(&chars, row_start, row_end).as_str());
    assert(row@.skip(0) =~= row@);
    let tab = find(&row, 0, '\t');
    if tab >= row.len() || tab + 1 >= row.len() {
        return None;
    }
    let label = string_of(&row, tab + 1, row.len());
    assert(label@ =~= row@.skip(tab + 1));
    Some((string_of(&chars, 0, key_end), label))
}

/// The first of the workspaces with the given label.
pub open spec fn running(workspaces: Seq<WorkspaceView>, label: Text) -> Option<WorkspaceView>
    decreases workspaces.len(),
{
    if workspaces.len() == 0 {
        None
    } else if workspaces[0].label == label {
        Some(workspaces[0])
    } else {
        running(workspaces.drop_first(), label)
    }
}

/// What a choice asks for.
#[derive(Debug, PartialEq, Eq)]
pub enum Pick {
    /// Leave the picker.
    Leave,
    /// Close a running workspace; `again` opens the picker once more afterwards.
    Close { workspace: Workspace, again: bool },
    /// Restore a saved workspace, and bring it to the front unless the picker is
    /// opened once more afterwards.
    Restore { definition: Definition, again: bool },
    /// There is no such workspace.
    Missing(String),
}

/// The model of a `Pick`.
pub enum PickView {
    Leave,
    Close { workspace: WorkspaceView, again: bool },
    Restore { definition: DefinitionView, again: bool },
    Missing(Text),
}

impl DeepView for Pick {
    type V = PickView;

    open spec fn deep_view(&self) -> PickView {
        match *self {
            Pick::Leave => PickView::Leave,
            Pick::Close { workspace, again } => PickView::Close {
                workspace: workspace.deep_view(),
                again,
            },
            Pick::Restore { definition, again } => PickView::Restore {
                definition: definition.deep_view(),
                again,
            },
            Pick::Missing(message) => PickView::Missing(message@),
        }
    }
}

/// What the picker's output asks for. Enter and Space close a running workspace and
/// restore a stopped one; Space keeps the picker open. Any other key leaves it.
pub open spec fn pick(
    output: Text,
    definitions: Map<Text, DefinitionView>,
    workspaces: Seq<WorkspaceView>,
) -> PickView {
    match picked(output) {
        None => PickView::Leave,
        Some((key, label)) => {
            let again = key == "space"@;
            if !again && key != "enter"@ {
                PickView::Leave
            } else {
                match (running(workspaces, label), definitions.get(label)) {
                    (Some(workspace), _) => PickView::Close { workspace, again },
                    (None, Some(definition)) => PickView::Restore { definition, again },
                    (None, None) => PickView::Missing("saved definition not found: "@ + label),
                }
            }
        },
    }
}

/// The first of the workspaces with the given label.
fn find_running(workspaces: Vec<Workspace>, label: &str) -> (result: Option<Workspace>)
    ensures
        result.deep_view() == running(workspaces.deep_view(), label@),
{
    let ghost all = workspaces.deep_view();
    let mut rest = workspaces;
    let mut i: usize = 0;
    assert(all.skip(0) =~= all);
    while i < rest.len()
        invariant
            all == workspaces.deep_view(),
            all == rest.deep_view(),
            i <= rest@.len(),
            running(all, label@) == running(all.skip(i as int), label@),
        decreases rest@.len() - i,
    {
        if same_text(rest[i].label.as_str(), label) {
            return Some(rest.remove(i));
        }
        assert(all.skip(i as int).drop_first() =~= all.skip(i + 1));
        i = i + 1;
    }
    None
}

/// What the picker's output asks for.
pub fn choose_row(
    output: &str,
    definitions: TextMap<Definition>,
    workspaces: Vec<Workspace>,
) -> (result: Pick)
    ensures
        result.deep_view() == pick(output@, definitions.deep_view(), workspaces.deep_view()),
{
    let (key, label) = match read_pick(output) {
        Some(chosen) => chosen,
        None => return Pick::Leave,
    };
    let again = same_text(key.as_str(), "space");
    if !again && !same_text(key.as_str(), "enter") {
        return Pick::Leave;
    }
    if let Some(workspace) = find_running(workspaces, label.as_str()) {
        return Pick::Close { workspace, again };
    }
    let mut definitions = definitions;
    match definitions.remove(label.as_str()) {
        Some(definition) => Pick::Restore { definition, again },
        None => Pick::Missing(joined("saved definition not found: ", label.as_str())),
    }
}

proof fn place_behind(s: Text, c: char, t: Text)
    requires
        !s.contains(c),
    ensures
        place_of(s + seq![c] + t, c) == s.len(),
    decreases s.len(),
{
    let all = s + seq![c] + t;
    if s.len() > 0 {
        assert(s.contains(s[0]));
        let rest = s.drop_first();
        assert forall|x: char| rest.contains(x) implies s.contains(x) by {
            let i = choose|i: int| 0 <= i < rest.len() && rest[i] == x;
            assert(s[i + 1] == x);
        }
        place_behind(rest, c, t);
        assert(all.drop_first() =~= rest + seq![c] + t);
    }
}

/// A line is told from what follows it by its line ending.
proof fn line_ends(line: Text, rest: Text)
    requires
        !line.contains('\n'),
        line.len() > 0 ==> line.last() != '\r',
    ensures
        first_line(line + "\n"@ + rest) == line,
        after_line(line + "\n"@ + rest) == rest,
{
    reveal_strlit("\n");
    let all = line + "\n"@ + rest;
    assert(all =~= line + seq!['\n'] + rest);
    place_behind(line, '\n', rest);
    assert(all.take(line.len() as int) =~= line);
    assert(all.skip(line.len() as int + 1) =~= rest);
}

/// The label follows the first tab of its row.
proof fn label_follows_tab(label: Text, running: bool)
    ensures
        place_of(row_line(label, running), '\t') == 1,
        row_line(label, running).skip(2) == label,
        row_line(label, running).len() == label.len() + 2,
        label.len() > 0 ==> row_line(label, running).last() == label.last(),
        !label.contains('\n') ==> !row_line(label, running).contains('\n'),
{
    reveal_strlit("\t");
    reveal_strlit("●");
    reveal_strlit("○");
    let row = row_line(label, running);
    let mark = if running {
        '●'
    } else {
        '○'
    };
    assert(row =~= seq![mark] + seq!['\t'] + label);
    place_behind(seq![mark], '\t', label);
    assert(row.skip(2) =~= label);
    if row.contains('\n') {
        let i = choose|i: int| 0 <= i < row.len() && row[i] == '\n';
        assert(label[i - 2] == '\n');
    }
}

/// Picking the row of a label with a key gives back the key and the label, as long as
/// neither breaks the line that it stands on.
#[verifier::spinoff_prover]
#[verifier::rlimit(30)]
pub proof fn picked_row_gives_its_label(key: Text, label: Text, running: bool)
    requires
        !key.contains('\n'),
        key.len() > 0 ==> key.last() != '\r',
        label.len() > 0,
        !label.contains('\n'),
        label.last() != '\r',
    ensures
        picked(key + "\n"@ + row_line(label, running) + "\n"@) == Some((key, label)),
{
    let row = row_line(label, running);
    let rest = row + "\n"@;
    label_follows_tab(label, running);
    line_ends(row, Seq::empty());
    assert(row + "\n"@ + Seq::<char>::empty() =~= rest);
    line_ends(key, rest);
    assert(key + "\n"@ + rest =~= key + "\n"@ + row + "\n"@);
}

/// Every saved and every running workspace is offered, and nothing else; a row is
/// marked as running where a workspace of its label is.
pub proof fn rows_are_the_workspaces(saved: Set<Text>, workspaces: Seq<WorkspaceView>, label: Text)
    ensures
        rows(saved, workspaces).contains_key(label) <==> saved.contains(label) || is_running(
            workspaces,
            label,
        ),
        rows(saved, workspaces).contains_key(label) ==> (rows(saved, workspaces)[label]
            <==> running(workspaces, label) is Some),
{
    running_is_found(workspaces, label);
}

proof fn running_is_found(workspaces: Seq<WorkspaceView>, label: Text)
    ensures
        is_running(workspaces, label) <==> running(workspaces, label) is Some,
        running(workspaces, label) matches Some(workspace) ==> workspace.label == label
            && workspaces.contains(workspace),
    decreases workspaces.len(),
{
    if workspaces.len() > 0 {
        let rest = workspaces.drop_first();
        running_is_found(rest, label);
        if is_running(rest, label) {
            let i = choose|i: int| 0 <= i < rest.len() && #[trigger] rest[i].label == label;
            assert(workspaces[i + 1].label == label);
            let found = running(rest, label)->0;
            let j = choose|j: int| 0 <= j < rest.len() && rest[j] == found;
            assert(workspaces[j + 1] == found);
        }
        if is_running(workspaces, label) && workspaces[0].label != label {
            let i = choose|i: int|
                0 <= i < workspaces.len() && #[trigger] workspaces[i].label == label;
            assert(rest[i - 1].label == label);
        }
        assert(workspaces[0].label == label ==> workspaces.contains(workspaces[0]));
    }
}

/// Every label that is offered leads to something: to the running workspace of that
/// label, or to the saved definition.
pub proof fn offered_label_is_never_missing(
    output: Text,
    label: Text,
    definitions: Map<Text, DefinitionView>,
    workspaces: Seq<WorkspaceView>,
)
    requires
        picked(output) matches Some((_, text)) && text == label,
        rows(definitions.dom(), workspaces).contains_key(label),
    ensures
        !(pick(output, definitions, workspaces) is Missing),
{
    running_is_found(workspaces, label);
}

/// The rows come in ascending order of their labels, and each label once.
pub proof fn rows_come_in_order(saved: Set<Text>, workspaces: Seq<WorkspaceView>)
    requires
        saved.finite(),
    ensures
        ascending(in_order(rows(saved, workspaces).dom())),
        in_order(rows(saved, workspaces).dom()).to_set() == rows(saved, workspaces).dom(),
{
    let labels = workspaces.map_values(|workspace: WorkspaceView| workspace.label);
    let dom = rows(saved, workspaces).dom();
    assert forall|label: Text| labels.contains(label) == is_running(workspaces, label) by {
        if labels.contains(label) {
            let i = choose|i: int| 0 <= i < labels.len() && labels[i] == label;
            assert(workspaces[i].label == label);
        }
        if is_running(workspaces, label) {
            let i = choose|i: int|
                0 <= i < workspaces.len() && #[trigger] workspaces[i].label == label;
            assert(labels[i] == label);
        }
    }
    vstd::seq_lib::seq_to_set_is_finite(labels);
    assert(dom =~= saved.union(labels.to_set()));
    in_order_is_ascending(dom);
}

/// A text cut at its line feeds.
pub open spec fn cut_at_line_feeds(s: Text) -> Seq<Text>
    decreases s.len(),
{
    let end = place_of(s, '\n') as int;
    if end < s.len() {
        seq![s.take(end)] + cut_at_line_feeds(s.skip(end + 1))
    } else {
        seq![s]
    }
}

proof fn last_line_is_cut_off(s: Text, line: Text)
    requires
        !line.contains('\n'),
    ensures
        cut_at_line_feeds(s + seq!['\n'] + line) == cut_at_line_feeds(s).push(line),
    decreases s.len(),
{
    let all = s + seq!['\n'] + line;
    let end = place_of(s, '\n') as int;
    place_is_the_first(s, '\n');
    place_is_the_first(all, '\n');
    let at = place_of(all, '\n') as int;
    assert(all[s.len() as int] == '\n');
    assert(at <= s.len());
    if end < s.len() {
        assert(all[end] == s[end]);
        assert(at <= end);
        if at < end {
            assert(all[at] == s[at]);
        }
        assert(all.take(at) =~= s.take(end));
        let rest = s.skip(end + 1);
        assert(all.skip(at + 1) =~= rest + seq!['\n'] + line);
        last_line_is_cut_off(rest, line);
        assert(cut_at_line_feeds(all) =~= cut_at_line_feeds(s).push(line));
    } else {
        if at < s.len() {
            assert(all[at] == s[at]);
        }
        assert(all.take(at) =~= s);
        assert(all.skip(at + 1) =~= line);
        place_is_the_first(line, '\n');
        let n = place_of(line, '\n') as int;
        if n < line.len() {
            assert(line.contains(line[n]));
        }
        assert(cut_at_line_feeds(line) == seq![line]);
        assert(cut_at_line_feeds(all) =~= cut_at_line_feeds(s).push(line));
    }
}

/// The list that is shown has one line for each label, in the order of the labels, and
/// no other line; each line offers its label with the label's own mark.
pub proof fn every_label_has_its_line(labels: Seq<Text>, rows: Map<Text, bool>)
    requires
        labels.len() > 0,
        forall|i: int| 0 <= i < labels.len() ==> !(#[trigger] labels[i]).contains('\n'),
    ensures
        ({
            let lines = cut_at_line_feeds(listed(labels, rows));
            &&& lines.len() == labels.len()
            &&& forall|i: int|
                0 <= i < labels.len() ==> #[trigger] lines[i] == row_line(
                    labels[i],
                    rows[labels[i]],
                )
        }),
    decreases labels.len(),
{
    reveal_strlit("\n");
    assert("\n"@ =~= seq!['\n']);
    let label = labels.last();
    let line = row_line(label, rows[label]);
    label_follows_tab(label, rows[label]);
    assert(!labels[labels.len() - 1].contains('\n'));
    if labels.len() == 1 {
        place_is_the_first(line, '\n');
        let n = place_of(line, '\n') as int;
        if n < line.len() {
            assert(line.contains(line[n]));
        }
    } else {
        let rest = labels.drop_last();
        assert forall|i: int| 0 <= i < rest.len() implies !(#[trigger] rest[i]).contains('\n') by {
            assert(rest[i] == labels[i]);
        }
        every_label_has_its_line(rest, rows);
        last_line_is_cut_off(listed(rest, rows), line);
        let lines = cut_at_line_feeds(listed(labels, rows));
        let before = cut_at_line_feeds(listed(rest, rows));
        assert(lines == before.push(line));
        assert forall|i: int| 0 <= i < labels.len() implies #[trigger] lines[i] == row_line(
            labels[i],
            rows[labels[i]],
        ) by {
            if i < rest.len() {
                assert(lines[i] == before[i]);
                assert(rest[i] == labels[i]);
            }
        }
    }
}

/// One label more adds its line below the others, whatever stands in it.
pub proof fn one_label_more_adds_a_line(labels: Seq<Text>, label: Text, rows: Map<Text, bool>)
    ensures
        listed(labels.push(label), rows) == (if labels.len() == 0 {
            row_line(label, rows[label])
        } else {
            listed(labels, rows) + "\n"@ + row_line(label, rows[label])
        }),
{
    assert(labels.push(label).drop_last() =~= labels);
}

/// A line is a mark, a tab and the whole label; the mark is full for a running workspace
/// and hollow for a stopped one.
pub proof fn line_shows_mark_and_label(label: Text, running: bool)
    ensures
        row_line(label, running) == (seq![
            if running {
                '●'
            } else {
                '○'
            },
            '\t',
        ] + label),
{
    reveal_strlit("\t");
    reveal_strlit("●");
    reveal_strlit("○");
    assert(row_line(label, running) =~= (seq![
        if running {
            '●'
        } else {
            '○'
        },
        '\t',
    ] + label));
}

/// Where the first two lines are known, the choice is read from them alone.
proof fn two_lines_decide(key: Text, row: Text, rest: Text)
    requires
        !key.contains('\n'),
        key.len() > 0 ==> key.last() != '\r',
        !row.contains('\n'),
        row.len() > 0 ==> row.last() != '\r',
    ensures
        first_line(key + "\n"@ + row + "\n"@ + rest) == key,
        first_line(after_line(key + "\n"@ + row + "\n"@ + rest)) == row,
{
    line_ends(row, rest);
    line_ends(key, row + "\n"@ + rest);
    assert(key + "\n"@ + (row + "\n"@ + rest) =~= key + "\n"@ + row + "\n"@ + rest);
}

/// What was chosen is read from the first two lines alone, wherever the output goes on:
/// the first is the key, and in the second the label is all that follows the first tab.
/// Nothing was chosen where nothing follows the tab.
pub proof fn choice_is_read_from_two_lines(key: Text, head: Text, label: Text, rest: Text)
    requires
        !key.contains('\n'),
        key.len() > 0 ==> key.last() != '\r',
        !head.contains('\n'),
        !head.contains('\t'),
        !label.contains('\n'),
        label.len() > 0 ==> label.last() != '\r',
    ensures
        picked(key + "\n"@ + (head + seq!['\t'] + label) + "\n"@ + rest) == (if label.len() > 0 {
            Some((key, label))
        } else {
            None
        }),
{
    let row = head + seq!['\t'] + label;
    assert(!row.contains('\n')) by {
        if row.contains('\n') {
            let i = choose|i: int| 0 <= i < row.len() && row[i] == '\n';
            if i < head.len() {
                assert(head[i] == '\n');
            } else {
                assert(label[i - head.len() - 1] == '\n');
            }
        }
    }
    assert(row.last() != '\r') by {
        if label.len() > 0 {
            assert(row.last() == label.last());
        }
    }
    two_lines_decide(key, row, rest);
    place_behind(head, '\t', label);
    assert(row.skip(head.len() as int + 1) =~= label);
}

/// Nothing was chosen where the second line has no tab.
pub proof fn line_without_tab_is_no_choice(key: Text, row: Text, rest: Text)
    requires
        !key.contains('\n'),
        key.len() > 0 ==> key.last() != '\r',
        !row.contains('\n'),
        !row.contains('\t'),
        row.len() > 0 ==> row.last() != '\r',
    ensures
        picked(key + "\n"@ + row + "\n"@ + rest) is None,
{
    two_lines_decide(key, row, rest);
    place_is_the_first(row, '\t');
    let n = place_of(row, '\t') as int;
    if n < row.len() {
        assert(row.contains(row[n]));
    }
}

/// Nothing was chosen where there is no second line.
pub proof fn single_line_is_no_choice(key: Text)
    requires
        !key.contains('\n'),
    ensures
        picked(key) is None,
        picked(key + "\n"@) is None,
{
    reveal_strlit("\n");
    let none = Text::empty();
    line_and_rest_make_the_text(key);
    line_and_rest_make_the_text(none);
    place_behind(key, '\n', none);
    assert(key + seq!['\n'] + none =~= key + "\n"@);
    assert(after_line(key + "\n"@) =~= none);
    assert(first_line(none).len() == 0);
}

/// The running workspace of a label is the first one that has it.
pub proof fn first_running_workspace_counts(workspaces: Seq<WorkspaceView>, label: Text, i: int)
    requires
        0 <= i <= workspaces.len(),
        i < workspaces.len() ==> workspaces[i].label == label,
        forall|j: int| 0 <= j < i ==> (#[trigger] workspaces[j]).label != label,
    ensures
        running(workspaces, label) == (if i < workspaces.len() {
            Some(workspaces[i])
        } else {
            None
        }),
    decreases i,
{
    if i > 0 {
        let rest = workspaces.drop_first();
        assert(workspaces[0].label != label);
        assert forall|j: int| 0 <= j < i - 1 implies (#[trigger] rest[j]).label != label by {
            assert(rest[j] == workspaces[j + 1]);
        }
        first_running_workspace_counts(rest, label, i - 1);
    }
}

/// A choice closes the workspace of the label where one is running, and otherwise
/// restores the definition that is saved under the label, with Enter and with Space; only
/// Space asks for the picker once more. No other key does anything.
pub proof fn choice_is_carried_out(
    output: Text,
    key: Text,
    label: Text,
    definitions: Map<Text, DefinitionView>,
    workspaces: Seq<WorkspaceView>,
    i: int,
)
    requires
        picked(output) == Some((key, label)),
        0 <= i <= workspaces.len(),
        i < workspaces.len() ==> workspaces[i].label == label,
        forall|j: int| 0 <= j < i ==> (#[trigger] workspaces[j]).label != label,
    ensures
        ({
            let result = pick(output, definitions, workspaces);
            let again = key == "space"@;
            if key == "enter"@ || key == "space"@ {
                if i < workspaces.len() {
                    result == (PickView::Close { workspace: workspaces[i], again })
                } else if definitions.contains_key(label) {
                    result == (PickView::Restore { definition: definitions[label], again })
                } else {
                    result == PickView::Missing("saved definition not found: "@ + label)
                }
            } else {
                result is Leave
            }
        }),
{
    first_running_workspace_counts(workspaces, label, i);
}

/// The last line counts though no line ending follows it, and a carriage return belongs
/// to the line ending.
pub proof fn line_endings_do_not_count(key: Text, head: Text, label: Text, rest: Text)
    requires
        !key.contains('\n'),
        !head.contains('\n'),
        !head.contains('\t'),
        !label.contains('\n'),
        label.len() > 0,
    ensures
        picked(key + seq!['\r', '\n'] + (head + seq!['\t'] + label)) == Some((key, label)),
        picked(key + seq!['\r', '\n'] + (head + seq!['\t'] + label) + seq!['\r', '\n'] + rest)
            == Some((key, label)),
{
    let row = head + seq!['\t'] + label;
    assert(!row.contains('\n')) by {
        if row.contains('\n') {
            let i = choose|i: int| 0 <= i < row.len() && row[i] == '\n';
            if i < head.len() {
                assert(head[i] == '\n');
            } else {
                assert(label[i - head.len() - 1] == '\n');
            }
        }
    }
    place_behind(head, '\t', label);
    assert(row.skip(head.len() as int + 1) =~= label);
    long_ending(key, row);
    line_and_rest_make_the_text(row);
    let more = row + seq!['\r', '\n'] + rest;
    long_ending(row, rest);
    long_ending(key, more);
    assert(key + seq!['\r', '\n'] + more =~= key + seq!['\r', '\n'] + row + seq!['\r', '\n']
        + rest);
}

proof fn long_ending(line: Text, rest: Text)
    requires
        !line.contains('\n'),
    ensures
        first_line(line + seq!['\r', '\n'] + rest) == line,
        after_line(line + seq!['\r', '\n'] + rest) == rest,
{
    let all = line + seq!['\r', '\n'] + rest;
    let longer = line.push('\r');
    assert(!longer.contains('\n')) by {
        if longer.contains('\n') {
            let i = choose|i: int| 0 <= i < longer.len() && longer[i] == '\n';
            assert(line[i] == '\n');
        }
    }
    assert(all =~= longer + seq!['\n'] + rest);
    place_behind(longer, '\n', rest);
    assert(all[line.len() as int] == '\r');
    assert(all.take(line.len() as int) =~= line);
    assert(all.skip(line.len() as int + 2) =~= rest);
}

} // verus!
