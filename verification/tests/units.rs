//! The parts of the library, one by one.

use pen::closing::{ensure_saved, read_choice, Choice, Closing, ClosingStep, Guard};
use pen::definition::{
    find_definition, load_definitions, Definition, LayoutNode, StoredDefinition, TabDefinition,
};
use pen::exchange::{unexpected_event, Action, Event};
use pen::files::{
    choose_place, config_dir, default_config, default_socket, definition_file, herdr_socket,
    is_definition_file, safe_filename, Place,
};
use pen::picker::{choose_row, list_rows, read_pick, Pick};
use pen::process::{command_from_process_info, foreground, Foreground, ForegroundProcess, ProcessInfo};
use pen::protocol::{
    read_reply, Envelope, Message, Parameter, Reply, Request, TabRow, Target, Value, Workspace,
};
use pen::restore::{Restore, RestoreStep};
use pen::session::{current_workspace, run, Context};
use pen::snapshot::{Snapshot, SnapshotStep};
use pen::text::{
    before, blank, characters, control, find, framed, joined, lowercase, same_text, string_of, trim,
    Margin,
};
use pen::text_map::TextMap;

#[test]
fn unsafe_label_characters_are_normalized() {
    assert_eq!(safe_filename("demo/project:*?"), "demo_project___");
    assert_eq!(safe_filename("..."), "workspace");
}

fn info(shell_pid: u64, leader: u64, processes: &[(u64, &[&str])]) -> ProcessInfo {
    ProcessInfo {
        shell_pid,
        foreground_process_group_id: leader,
        foreground_processes: processes
            .iter()
            .map(|(pid, argv)| ForegroundProcess {
                pid: *pid,
                argv: argv.iter().map(ToString::to_string).collect(),
            })
            .collect(),
    }
}

#[test]
fn foreground_leader_argv_becomes_the_saved_command() {
    let info = info(100, 200, &[(200, &["helix"]), (201, &["uv", "tool"])]);
    assert_eq!(
        command_from_process_info(&info, 999),
        Some(vec!["helix".to_owned()])
    );
}

#[test]
fn idle_shell_and_pen_itself_are_not_saved_as_commands() {
    let idle = info(100, 100, &[(100, &["/usr/bin/zsh"])]);
    assert_eq!(command_from_process_info(&idle, 999), None);
    let running_pen = info(100, 555, &[(555, &["pen", "save"])]);
    assert_eq!(command_from_process_info(&running_pen, 555), None);
    let no_argv = info(100, 200, &[(200, &[])]);
    assert_eq!(command_from_process_info(&no_argv, 999), None);
}

#[test]
fn an_idle_pane_is_told_from_an_unknown_command() {
    assert_eq!(foreground(&info(100, 100, &[]), 999), Foreground::Idle);
    assert_eq!(foreground(&info(100, 999, &[]), 999), Foreground::Idle);
    assert_eq!(foreground(&info(100, 200, &[(200, &[])]), 999), Foreground::Unknown);
    assert_eq!(foreground(&info(100, 200, &[(201, &["uv"])]), 999), Foreground::Unknown);
    assert_eq!(
        foreground(&info(100, 200, &[(201, &["uv"]), (200, &["vim", "a"]), (200, &["ed"])]), 999),
        Foreground::Command(vec!["vim".to_owned(), "a".to_owned()])
    );
}

#[test]
fn white_space_and_control_characters_are_those_of_std() {
    for code in 0u32..=0x10ffff {
        if let Some(c) = char::from_u32(code) {
            assert_eq!(blank(c), c.is_whitespace(), "{code:x}");
            assert_eq!(control(c), c.is_control(), "{code:x}");
        }
    }
}

#[test]
fn file_names_are_safe() {
    assert_eq!(safe_filename(""), "workspace");
    assert_eq!(safe_filename("  "), "workspace");
    assert_eq!(safe_filename(" . "), "workspace");
    assert_eq!(safe_filename("../etc"), "_etc");
    assert_eq!(safe_filename("..a.b.."), "a.b");
    assert_eq!(safe_filename(". a ."), " a ");
    assert_eq!(safe_filename("a\\b\"c<d>e|f"), "a_b_c_d_e_f");
    assert_eq!(safe_filename("a\nb\u{7f}c"), "a_b_c");
    assert_eq!(safe_filename("\u{3000}日本\u{a0}"), "日本");
    assert_eq!(safe_filename("demo"), "demo");
    assert_eq!(definition_file("demo/project"), "demo_project.toml");
    assert_eq!(definition_file(""), "workspace.toml");
}

#[test]
fn definition_files_are_told_by_their_extension() {
    for label in ["demo", "...", "", "a/b", "日本", "x.toml"] {
        assert!(is_definition_file(&definition_file(label)), "{label}");
    }
    assert!(is_definition_file("..toml"));
    assert!(!is_definition_file(".toml"));
    assert!(!is_definition_file("toml"));
    assert!(!is_definition_file("atoml"));
    assert!(!is_definition_file("a.tomL"));
    assert!(!is_definition_file("a.toml~"));
    assert!(!is_definition_file("a.json"));
    assert!(!is_definition_file(""));
}

#[test]
fn a_given_place_comes_before_the_home_directory() {
    let below = |path| Ok(Place::BelowHome { home: "/home", path });
    assert_eq!(choose_place(None, Some("/home"), "usual"), below("usual"));
    assert_eq!(config_dir(Some("/x"), Some("/home")), Ok(Place::Given("/x")));
    assert_eq!(config_dir(Some("/x"), None), Ok(Place::Given("/x")));
    assert_eq!(config_dir(None, Some("/home")), below(".config/pen"));
    assert_eq!(config_dir::<&str>(None, None), Err("HOME is not set".to_owned()));
    assert_eq!(herdr_socket(Some("/x"), Some("/home")), Ok(Place::Given("/x")));
    assert_eq!(herdr_socket(Some("/x"), None), Ok(Place::Given("/x")));
    assert_eq!(herdr_socket(None, Some("/home")), below(".config/herdr/herdr.sock"));
    assert_eq!(herdr_socket::<&str>(None, None), Err("HOME is not set".to_owned()));
    assert_eq!(default_config(), ".config/pen");
    assert_eq!(default_socket(), ".config/herdr/herdr.sock");
}

#[test]
fn texts_are_taken_apart_and_put_together() {
    assert_eq!(characters("aé日"), ['a', 'é', '日']);
    assert_eq!(string_of(&characters("aé日本"), 1, 3), "é日");
    assert_eq!(joined("a", "b"), "ab");
    assert_eq!(framed("a", "b", "c"), "abc");
    assert!(same_text("ab", "ab"));
    assert!(!same_text("ab", "aB"));
    assert_eq!(lowercase("AbZ[É"), "abz[É");
    assert_eq!(trim(" \ta b\r\n", Margin::Blanks), "a b");
    assert_eq!(trim("..a.b.", Margin::Dots), "a.b");
    assert_eq!(trim(" . ", Margin::Dots), " . ");
    assert_eq!(find(&characters("abcb"), 0, 'b'), 1);
    assert_eq!(find(&characters("abcb"), 2, 'b'), 3);
    assert_eq!(find(&characters("abcb"), 2, 'a'), 4);
}

#[test]
fn texts_are_ordered_as_std_orders_them() {
    let texts = ["", "A", "B", "a", "aa", "ab", "b", "é", "日", "\u{ffff}", "\u{10000}"];
    for a in texts {
        for b in texts {
            assert_eq!(before(a, b), a < b, "{a:?} {b:?}");
        }
    }
}

#[test]
fn a_map_keeps_its_keys_in_order() {
    let mut map: TextMap<u8> = TextMap::new();
    for (key, value) in [("b", 1), ("a", 2), ("c", 3), ("b", 4)] {
        map.insert(key.to_owned(), value);
    }
    assert_eq!(map.len(), 3);
    let entries: Vec<(&str, u8)> =
        (0..map.len()).map(|i| (map.key(i).as_str(), *map.value(i))).collect();
    assert_eq!(entries, [("a", 2), ("b", 4), ("c", 3)]);
    assert_eq!(map.get("b"), Some(&4));
    assert_eq!(map.get("d"), None);
    assert_eq!(map.remove("b"), Some(4));
    assert_eq!(map.remove("b"), None);
    assert_eq!(map.len(), 2);
}

fn pane(cwd: &str, command: Option<&str>, id: Option<&str>) -> LayoutNode {
    LayoutNode::Pane {
        cwd: Some(cwd.to_owned()),
        command: command.map(|word| vec![word.to_owned()]),
        env: TextMap::new(),
        label: None,
        pane_id: id.map(str::to_owned),
    }
}

fn split(first: LayoutNode, second: LayoutNode) -> LayoutNode {
    LayoutNode::Split {
        direction: "right".to_owned(),
        ratio: 0.5f64.to_bits(),
        first: Box::new(first),
        second: Box::new(second),
    }
}

fn tab(label: &str, active: bool, root: LayoutNode) -> TabDefinition {
    TabDefinition { label: Some(label.to_owned()), active, root }
}

fn definition(label: &str, cwd: &str) -> Definition {
    Definition { label: label.to_owned(), tabs: vec![tab("1", true, pane(cwd, None, None))] }
}

#[test]
fn commands_go_to_the_running_panes_in_order() {
    let root = split(
        pane("/a", Some("old"), Some("p1")),
        split(pane("/b", Some("kept"), None), pane("/c", Some("same"), Some("p2"))),
    );
    assert_eq!(root.pane_ids(), ["p1", "p2"]);
    let root = root.capture_commands(vec![Some(vec!["vim".to_owned()]), None]);
    assert_eq!(root.pane_ids(), ["p1", "p2"]);
    let expected = split(
        pane("/a", Some("vim"), None),
        split(pane("/b", Some("kept"), None), pane("/c", Some("same"), None)),
    );
    assert!(root.same_saved(&expected));
    assert_eq!(root.into_saved(), expected);
    assert!(expected.pane_ids().is_empty());
}

#[test]
fn definitions_are_compared_by_what_is_saved_of_them() {
    let saved = definition("demo", "/work");
    assert!(saved.same_saved(&definition("demo", "/work")));
    assert!(!saved.same_saved(&definition("other", "/work")));
    assert!(!saved.same_saved(&definition("demo", "/old")));
    let running = Definition {
        label: "demo".to_owned(),
        tabs: vec![tab("1", true, pane("/work", None, Some("p1")))],
    };
    assert!(saved.same_saved(&running));
    let inactive = Definition {
        label: "demo".to_owned(),
        tabs: vec![tab("1", false, pane("/work", None, None))],
    };
    assert!(!saved.same_saved(&inactive));
    let renamed = Definition {
        label: "demo".to_owned(),
        tabs: vec![tab("2", true, pane("/work", None, None))],
    };
    assert!(!saved.same_saved(&renamed));
    let two = Definition {
        label: "demo".to_owned(),
        tabs: vec![
            tab("1", true, pane("/work", None, None)),
            tab("2", false, pane("/work", None, None)),
        ],
    };
    assert!(!saved.same_saved(&two));
}

#[test]
fn layouts_differ_in_each_of_their_parts() {
    let base = || split(pane("/a", Some("vim"), None), pane("/b", None, None));
    assert!(base().same_saved(&base()));
    assert!(!base().same_saved(&pane("/a", Some("vim"), None)));
    assert!(!base().same_saved(&split(pane("/a", Some("ed"), None), pane("/b", None, None))));
    assert!(!base().same_saved(&split(pane("/a", Some("vim"), None), pane("/b", Some("x"), None))));
    let upright = LayoutNode::Split {
        direction: "down".to_owned(),
        ratio: 0.5f64.to_bits(),
        first: Box::new(pane("/a", Some("vim"), None)),
        second: Box::new(pane("/b", None, None)),
    };
    assert!(!base().same_saved(&upright));
    let narrow = LayoutNode::Split {
        direction: "right".to_owned(),
        ratio: 0.25f64.to_bits(),
        first: Box::new(pane("/a", Some("vim"), None)),
        second: Box::new(pane("/b", None, None)),
    };
    assert!(!base().same_saved(&narrow));
    let with_env = |name: &str, value: &str| {
        let mut env = TextMap::new();
        env.insert(name.to_owned(), value.to_owned());
        LayoutNode::Pane { cwd: None, command: None, env, label: None, pane_id: None }
    };
    assert!(with_env("MODE", "dev").same_saved(&with_env("MODE", "dev")));
    assert!(!with_env("MODE", "dev").same_saved(&with_env("MODE", "prod")));
    assert!(!with_env("MODE", "dev").same_saved(&with_env("KIND", "dev")));
    let bare = LayoutNode::Pane {
        cwd: None,
        command: None,
        env: TextMap::new(),
        label: None,
        pane_id: None,
    };
    assert!(!with_env("MODE", "dev").same_saved(&bare));
    assert!(!bare.same_saved(&with_env("MODE", "dev")));
}

#[test]
fn a_file_of_the_older_format_describes_one_tab() {
    let legacy = StoredDefinition::Legacy {
        label: "sleeping".to_owned(),
        root: pane("/sleeping", Some("helix"), None),
    };
    assert_eq!(
        Definition::from(legacy),
        Definition {
            label: "sleeping".to_owned(),
            tabs: vec![tab("sleeping", true, pane("/sleeping", Some("helix"), None))],
        }
    );
}

#[test]
fn the_later_of_two_files_with_one_label_counts() {
    let files = || {
        vec![
            StoredDefinition::Tabs(definition("demo", "/old")),
            StoredDefinition::Tabs(definition("agents", "/agents")),
            StoredDefinition::Tabs(definition("demo", "/new")),
        ]
    };
    let loaded = load_definitions(files());
    assert_eq!(loaded.len(), 2);
    assert_eq!(loaded.key(0), "agents");
    assert_eq!(loaded.get("demo"), Some(&definition("demo", "/new")));
    assert_eq!(find_definition(files(), "demo"), Some(definition("demo", "/new")));
    assert_eq!(find_definition(files(), "nobody"), None);
}

#[test]
fn answers_are_read_by_their_words() {
    for answer in ["d\n", "discard", " D \r\n", "DISCARD\n"] {
        assert_eq!(read_choice(answer, true), Choice::Discard, "{answer:?}");
        assert_eq!(read_choice(answer, false), Choice::Discard, "{answer:?}");
    }
    for answer in ["u\n", "Update\n"] {
        assert_eq!(read_choice(answer, true), Choice::Keep, "{answer:?}");
        assert_eq!(read_choice(answer, false), Choice::Cancel, "{answer:?}");
    }
    for answer in ["s\n", "SAVE\n"] {
        assert_eq!(read_choice(answer, false), Choice::Keep, "{answer:?}");
        assert_eq!(read_choice(answer, true), Choice::Cancel, "{answer:?}");
    }
    for answer in ["", "\n", "c\n", "y\n", "dd\n", "sa ve\n"] {
        assert_eq!(read_choice(answer, true), Choice::Cancel, "{answer:?}");
        assert_eq!(read_choice(answer, false), Choice::Cancel, "{answer:?}");
    }
}

fn line(text: &str) -> Option<String> {
    Some(text.to_owned())
}

#[test]
fn an_unsaved_workspace_is_asked_about_before_it_is_taken_down() {
    let live = Some(definition("a\"b", "/work"));
    let prompt = "Workspace \"a\\\"b\" is not saved. [s]ave, [d]iscard or [c]ancel? ".to_owned();
    assert_eq!(ensure_saved("a\"b", &None, &None, &None), Guard::Ask(prompt));
    assert_eq!(ensure_saved("a\"b", &None, &None, &line("s\n")), Guard::Snapshot);
    assert_eq!(ensure_saved("a\"b", &None, &live, &line("s\n")), Guard::Save);
    assert_eq!(ensure_saved("a\"b", &None, &None, &line("d\n")), Guard::Close);
    assert_eq!(
        ensure_saved("a\"b", &None, &None, &line("c\n")),
        Guard::Refuse("close cancelled; workspace has no saved definition".to_owned())
    );
}

#[test]
fn a_saved_workspace_is_asked_about_only_where_it_differs() {
    let saved = Some(definition("demo", "/old"));
    let live = Some(definition("demo", "/work"));
    let same = Some(definition("demo", "/old"));
    assert_eq!(ensure_saved("demo", &saved, &None, &None), Guard::Snapshot);
    assert_eq!(ensure_saved("demo", &saved, &same, &None), Guard::Close);
    assert_eq!(ensure_saved("demo", &saved, &same, &line("c\n")), Guard::Close);
    let prompt =
        "Workspace \"demo\" differs from its saved definition. [u]pdate, [d]iscard or [c]ancel? "
            .to_owned();
    assert_eq!(ensure_saved("demo", &saved, &live, &None), Guard::Ask(prompt));
    assert_eq!(ensure_saved("demo", &saved, &live, &line("u\n")), Guard::Save);
    assert_eq!(ensure_saved("demo", &saved, &live, &line("d\n")), Guard::Close);
    assert_eq!(
        ensure_saved("demo", &saved, &live, &line("\n")),
        Guard::Refuse("close cancelled; workspace differs from its saved definition".to_owned())
    );
}

fn workspace(id: &str, label: &str) -> Workspace {
    Workspace {
        id: id.to_owned(),
        active_tab_id: format!("{id}:t1"),
        label: label.to_owned(),
    }
}

#[test]
fn closing_ends_with_what_happens_to_it() {
    let (closing, action) = Closing::start(workspace("w2", "demo"), 999);
    assert_eq!(action, Action::LoadDefinitions);
    assert_eq!(
        closing.step(Event::Failed("disk".to_owned())),
        ClosingStep::Failed("disk".to_owned())
    );
    let (closing, _) = Closing::start(workspace("w2", "demo"), 999);
    assert_eq!(closing.step(Event::Saved), ClosingStep::Failed(unexpected_event()));
}

#[test]
fn picks_are_read_line_by_line() {
    let pick = |key: &str, label: &str| Some((key.to_owned(), label.to_owned()));
    assert_eq!(read_pick("enter\n○\tdemo\n"), pick("enter", "demo"));
    assert_eq!(read_pick("space\r\n●\tdemo\r\n"), pick("space", "demo"));
    assert_eq!(read_pick("enter\n○\ta\tb"), pick("enter", "a\tb"));
    assert_eq!(read_pick("\n○\tdemo\nmore\n"), pick("", "demo"));
    assert_eq!(read_pick("enter\n○\tdemo\r"), pick("enter", "demo\r"));
    assert_eq!(read_pick("enter\n○\t\n"), None);
    assert_eq!(read_pick("enter\ndemo\n"), None);
    assert_eq!(read_pick("enter"), None);
    assert_eq!(read_pick(""), None);
}

#[test]
fn every_listed_row_leads_back_to_its_label() {
    let saved = |labels: &[&str]| {
        load_definitions(
            labels.iter().map(|label| StoredDefinition::Tabs(definition(label, "/"))).collect(),
        )
    };
    let labels = ["demo", "a b", "日本"];
    let running = || vec![workspace("w1", "demo"), workspace("w2", "zeta")];
    let rows = list_rows(&saved(&labels), &running()).unwrap();
    assert_eq!(rows, "○\ta b\n●\tdemo\n●\tzeta\n○\t日本");
    for row in rows.split('\n') {
        for (key, again) in [("space", true), ("enter", false)] {
            let output = format!("{key}\n{row}\n");
            match choose_row(&output, saved(&labels), running()) {
                Pick::Close { workspace, again: back } => {
                    assert_eq!(row, format!("●\t{}", workspace.label));
                    assert_eq!(back, again);
                }
                Pick::Restore { definition, again: back } => {
                    assert_eq!(row, format!("○\t{}", definition.label));
                    assert_eq!(back, again);
                }
                other => panic!("{other:?}"),
            }
        }
        assert_eq!(choose_row(&format!("esc\n{row}\n"), saved(&labels), running()), Pick::Leave);
    }
    assert_eq!(
        choose_row("enter\n○\tgone\n", saved(&labels), running()),
        Pick::Missing("saved definition not found: gone".to_owned())
    );
    assert_eq!(list_rows(&TextMap::new(), &Vec::new()), None);
}

#[test]
fn the_first_workspace_of_an_id_is_the_current_one() {
    let rows = || vec![workspace("w1", "a"), workspace("w2", "b"), workspace("w2", "c")];
    assert_eq!(current_workspace(rows(), "w2"), Some(workspace("w2", "b")));
    assert_eq!(current_workspace(rows(), "w3"), None);
}

#[test]
fn replies_are_unwrapped() {
    let read = |result: Option<u8>, error: Option<&str>| {
        Ok(Envelope { result, error: error.map(str::to_owned) })
    };
    assert_eq!(read_reply("tab.list", "x", read(Some(1), None)), Ok(1));
    assert_eq!(
        read_reply("tab.list", "x", read(Some(1), Some("{\"code\":\"x\"}"))),
        Err("herdr tab.list failed: {\"code\":\"x\"}".to_owned())
    );
    assert_eq!(
        read_reply("tab.list", "x", read(None, Some("\"no\""))),
        Err("herdr tab.list failed: \"no\"".to_owned())
    );
    assert_eq!(
        read_reply("tab.list", "x", read(None, None)),
        Err("herdr tab.list response has no result".to_owned())
    );
    assert_eq!(
        read_reply::<u8>("tab.list", "x", Err("duplicate field".to_owned())),
        Err("duplicate field".to_owned())
    );
    assert_eq!(
        read_reply::<u8>("tab.list", "", Err("EOF while parsing".to_owned())),
        Err("herdr returned no response for tab.list".to_owned())
    );
    assert_eq!(
        read_reply("tab.list", "", read(Some(1), None)),
        Err("herdr returned no response for tab.list".to_owned())
    );
}

#[test]
fn requests_are_sent_with_their_parameters() {
    let text = |name: &str, value: &str| Parameter {
        name: name.to_owned(),
        value: Value::Text(value.to_owned()),
    };
    let flag = || Parameter { name: "focus".to_owned(), value: Value::Flag(false) };
    let message = |method: &str, params: Vec<Parameter>| Message {
        id: format!("pen:{method}"),
        method: method.to_owned(),
        params,
    };
    let id = || "x".to_owned();
    let cases = vec![
        (
            Request::CurrentPane { caller_pane_id: Some(id()) },
            message("pane.current", vec![text("caller_pane_id", "x")]),
        ),
        (Request::ListWorkspaces, message("workspace.list", vec![])),
        (
            Request::ListTabs { workspace_id: id() },
            message("tab.list", vec![text("workspace_id", "x")]),
        ),
        (
            Request::ExportLayout { tab_id: id() },
            message("layout.export", vec![text("tab_id", "x")]),
        ),
        (
            Request::InspectPane { pane_id: id() },
            message("pane.process_info", vec![text("pane_id", "x")]),
        ),
        (
            Request::Notify { title: id() },
            message("notification.show", vec![text("title", "x")]),
        ),
        (
            Request::CloseWorkspace { workspace_id: id() },
            message("workspace.close", vec![text("workspace_id", "x")]),
        ),
        (
            Request::CreateWorkspace { label: id() },
            message("workspace.create", vec![text("label", "x"), flag()]),
        ),
        (
            Request::ApplyLayout {
                root: pane("/a", None, None),
                target: Target::Tab(id()),
                tab_label: Some("l".to_owned()),
            },
            message(
                "layout.apply",
                vec![
                    Parameter {
                        name: "root".to_owned(),
                        value: Value::Layout(pane("/a", None, None)),
                    },
                    text("tab_id", "x"),
                    text("tab_label", "l"),
                    flag(),
                ],
            ),
        ),
        (
            Request::ApplyLayout {
                root: pane("/a", None, None),
                target: Target::Workspace(id()),
                tab_label: None,
            },
            message(
                "layout.apply",
                vec![
                    Parameter {
                        name: "root".to_owned(),
                        value: Value::Layout(pane("/a", None, None)),
                    },
                    text("workspace_id", "x"),
                    Parameter { name: "tab_label".to_owned(), value: Value::Null },
                    flag(),
                ],
            ),
        ),
        (Request::FocusTab { tab_id: id() }, message("tab.focus", vec![text("tab_id", "x")])),
        (
            Request::FocusWorkspace { workspace_id: id() },
            message("workspace.focus", vec![text("workspace_id", "x")]),
        ),
    ];
    for (request, expected) in cases {
        assert_eq!(request.method(), expected.method);
        assert_eq!(request.into_message(), expected);
    }
}

fn next_snapshot(step: SnapshotStep) -> (Snapshot, Request) {
    match step {
        SnapshotStep::Ask(snapshot, request) => (snapshot, request),
        other => panic!("{other:?}"),
    }
}

#[test]
fn a_tab_without_running_panes_is_not_inspected() {
    let (snapshot, request) = Snapshot::start(workspace("w1", "demo"), 999);
    assert_eq!(request, Request::ListTabs { workspace_id: "w1".to_owned() });
    let rows = vec![TabRow { tab_id: "w1:t1".to_owned(), label: "1".to_owned() }];
    let (snapshot, request) = next_snapshot(snapshot.step(Reply::Tabs(rows)));
    assert_eq!(request, Request::ExportLayout { tab_id: "w1:t1".to_owned() });
    assert_eq!(
        snapshot.step(Reply::Layout(pane("/work", Some("vim"), None))),
        SnapshotStep::Done(Definition {
            label: "demo".to_owned(),
            tabs: vec![tab("1", true, pane("/work", Some("vim"), None))],
        })
    );
}

#[test]
fn a_snapshot_keeps_the_layout_but_for_the_commands() {
    let (snapshot, _) = Snapshot::start(workspace("w1", "demo"), 999);
    let rows = vec![TabRow { tab_id: "w1:t2".to_owned(), label: "1".to_owned() }];
    let (snapshot, _) = next_snapshot(snapshot.step(Reply::Tabs(rows)));
    let root = split(pane("/a", None, Some("p1")), pane("/b", Some("old"), Some("p2")));
    let (snapshot, request) = next_snapshot(snapshot.step(Reply::Layout(root)));
    assert_eq!(request, Request::InspectPane { pane_id: "p1".to_owned() });
    let running = info(100, 200, &[(200, &["vim"])]);
    let (snapshot, request) = next_snapshot(snapshot.step(Reply::Processes(running)));
    assert_eq!(request, Request::InspectPane { pane_id: "p2".to_owned() });
    let taken = Definition {
        label: "demo".to_owned(),
        tabs: vec![tab(
            "1",
            false,
            split(pane("/a", Some("vim"), Some("p1")), pane("/b", Some("old"), Some("p2"))),
        )],
    };
    let step = snapshot.step(Reply::Processes(info(100, 100, &[])));
    assert_eq!(step, SnapshotStep::Done(taken));
    let saved = match step {
        SnapshotStep::Done(definition) => definition.into_saved(),
        other => panic!("{other:?}"),
    };
    assert_eq!(
        saved.tabs[0].root,
        split(pane("/a", Some("vim"), None), pane("/b", Some("old"), None))
    );
}

#[test]
fn arguments_that_are_not_known_count_as_none() {
    assert_eq!(
        ForegroundProcess::reported(7, None),
        ForegroundProcess { pid: 7, argv: Vec::new() }
    );
    assert_eq!(
        ForegroundProcess::reported(7, Some(vec!["vim".to_owned()])).argv,
        ["vim"]
    );
}

#[test]
fn a_snapshot_fails_on_a_wrong_reply() {
    let (snapshot, _) = Snapshot::start(workspace("w1", "demo"), 999);
    assert_eq!(
        snapshot.step(Reply::Done),
        SnapshotStep::Failed("herdr tab.list sent an unexpected reply".to_owned())
    );
}

#[test]
fn a_restoration_fails_on_a_wrong_reply() {
    let restore = match Restore::start(definition("demo", "/work"), false) {
        RestoreStep::Ask(restore, request) => {
            assert_eq!(request, Request::CreateWorkspace { label: "demo".to_owned() });
            restore
        }
        other => panic!("{other:?}"),
    };
    assert_eq!(restore.failure("no"), "no");
    let created = Reply::Created { workspace_id: "w9".to_owned(), tab_id: "w9:t1".to_owned() };
    let restore = match restore.step(created) {
        RestoreStep::Ask(restore, _) => restore,
        other => panic!("{other:?}"),
    };
    let left = " (restore left an incomplete workspace \"demo\"; close it manually)";
    assert_eq!(restore.failure("no"), format!("no{left}"));
    assert_eq!(
        restore.step(Reply::Done),
        RestoreStep::Failed(format!("herdr layout.apply sent an unexpected reply{left}"))
    );
}

#[test]
fn an_ended_command_does_nothing_any_more() {
    let context = Context { version: "0.1.0".to_owned(), self_pid: 1, caller_pane_id: None };
    let turn = run(vec!["save".to_owned()], context);
    let turn = turn.session.step(Event::Saved);
    assert_eq!(turn.action, Action::Finish(Err(unexpected_event())));
    let turn = turn.session.step(Event::Saved);
    assert_eq!(turn.action, Action::Finish(Err(unexpected_event())));
}
