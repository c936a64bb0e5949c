//! Whole commands, run against a herdr that gives prepared replies.

use pen::definition::{Definition, LayoutNode, StoredDefinition, TabDefinition};
use pen::exchange::{Action, Event, Note};
use pen::process::{ForegroundProcess, ProcessInfo};
use pen::protocol::{read_reply, Envelope, Reply, Request, TabRow, Value, Workspace};
use pen::session::{run, Context, Turn, HELP};
use pen::text_map::TextMap;
use serde_json::Value as Json;
use std::collections::VecDeque;

/// What a file in the definition directory holds.
enum File {
    Text(String),
    Written(Definition),
}

/// What a command meets outside.
struct World {
    replies: VecDeque<String>,
    files: Vec<(String, File)>,
    answers: VecDeque<String>,
    picks: VecDeque<Option<String>>,
    seen: Vec<Json>,
    prompts: Vec<String>,
    lists: Vec<String>,
    stdout: String,
    stderr: String,
    written: Vec<String>,
}

fn reply(result: &str) -> String {
    format!(r#"{{"id":"test","result":{result}}}"#)
}

fn text(value: &Json) -> String {
    value.as_str().unwrap().to_owned()
}

fn optional(value: &Json) -> Option<String> {
    value.as_str().map(str::to_owned)
}

fn texts(value: &Json) -> Vec<String> {
    match value.as_array() {
        Some(items) => items.iter().map(text).collect(),
        None => Vec::new(),
    }
}

fn layout(value: &Json) -> LayoutNode {
    if value["type"] == "pane" {
        let mut env = TextMap::new();
        if let Some(entries) = value["env"].as_object() {
            for (name, entry) in entries {
                env.insert(name.clone(), text(entry));
            }
        }
        LayoutNode::Pane {
            cwd: optional(&value["cwd"]),
            command: value["command"].as_array().map(|_| texts(&value["command"])),
            env,
            label: optional(&value["label"]),
            pane_id: optional(&value["pane_id"]),
        }
    } else {
        LayoutNode::Split {
            direction: text(&value["direction"]),
            ratio: value["ratio"].as_f64().unwrap().to_bits(),
            first: Box::new(layout(&value["first"])),
            second: Box::new(layout(&value["second"])),
        }
    }
}

fn layout_json(node: &LayoutNode) -> Json {
    let mut object = serde_json::Map::new();
    match node {
        LayoutNode::Pane { cwd, command, .. } => {
            object.insert("type".to_owned(), Json::from("pane"));
            if let Some(cwd) = cwd {
                object.insert("cwd".to_owned(), Json::from(cwd.as_str()));
            }
            if let Some(command) = command {
                object.insert("command".to_owned(), Json::from(command.clone()));
            }
        }
        LayoutNode::Split { first, second, .. } => {
            object.insert("type".to_owned(), Json::from("split"));
            object.insert("first".to_owned(), layout_json(first));
            object.insert("second".to_owned(), layout_json(second));
        }
    }
    Json::Object(object)
}

fn stored(file: &str) -> StoredDefinition {
    let table: toml::Table = toml::from_str(file).unwrap();
    let value = serde_json::to_value(&table).unwrap();
    let label = text(&value["label"]);
    match value["tabs"].as_array() {
        Some(tabs) => StoredDefinition::Tabs(Definition {
            label,
            tabs: tabs
                .iter()
                .map(|tab| TabDefinition {
                    label: optional(&tab["label"]),
                    active: tab["active"].as_bool().unwrap_or(false),
                    root: layout(&tab["root"]),
                })
                .collect(),
        }),
        None => StoredDefinition::Legacy { label, root: layout(&value["root"]) },
    }
}

fn copy_env(env: &TextMap<String>) -> TextMap<String> {
    let mut copy = TextMap::new();
    for i in 0..env.len() {
        copy.insert(env.key(i).clone(), env.value(i).clone());
    }
    copy
}

fn copy_layout(node: &LayoutNode) -> LayoutNode {
    match node {
        LayoutNode::Pane { cwd, command, env, label, pane_id } => LayoutNode::Pane {
            cwd: cwd.clone(),
            command: command.clone(),
            env: copy_env(env),
            label: label.clone(),
            pane_id: pane_id.clone(),
        },
        LayoutNode::Split { direction, ratio, first, second } => LayoutNode::Split {
            direction: direction.clone(),
            ratio: *ratio,
            first: Box::new(copy_layout(first)),
            second: Box::new(copy_layout(second)),
        },
    }
}

fn copy_definition(definition: &Definition) -> Definition {
    Definition {
        label: definition.label.clone(),
        tabs: definition
            .tabs
            .iter()
            .map(|tab| TabDefinition {
                label: tab.label.clone(),
                active: tab.active,
                root: copy_layout(&tab.root),
            })
            .collect(),
    }
}

/// What a line of herdr holds.
fn envelope(line: &str) -> Result<Envelope<Json>, String> {
    let value: Json = serde_json::from_str(line).map_err(|error| error.to_string())?;
    let member = |name: &str| value.get(name).filter(|member| !member.is_null()).cloned();
    Ok(Envelope { result: member("result"), error: member("error").map(|error| error.to_string()) })
}

/// What kind of reply a request gets.
fn decode(method: &str, result: &Json) -> Reply {
    match method {
        "pane.current" => {
            Reply::CurrentPane { workspace_id: text(&result["pane"]["workspace_id"]) }
        }
        "workspace.list" => Reply::Workspaces(
            result["workspaces"]
                .as_array()
                .unwrap()
                .iter()
                .map(|row| Workspace {
                    id: text(&row["workspace_id"]),
                    active_tab_id: text(&row["active_tab_id"]),
                    label: text(&row["label"]),
                })
                .collect(),
        ),
        "tab.list" => Reply::Tabs(
            result["tabs"]
                .as_array()
                .unwrap()
                .iter()
                .map(|row| TabRow { tab_id: text(&row["tab_id"]), label: text(&row["label"]) })
                .collect(),
        ),
        "layout.export" => Reply::Layout(layout(&result["layout"]["root"])),
        "pane.process_info" => {
            let info = &result["process_info"];
            Reply::Processes(ProcessInfo {
                shell_pid: info["shell_pid"].as_u64().unwrap(),
                foreground_process_group_id: info["foreground_process_group_id"].as_u64().unwrap(),
                foreground_processes: info["foreground_processes"]
                    .as_array()
                    .unwrap()
                    .iter()
                    .map(|process| {
                        ForegroundProcess::reported(
                            process["pid"].as_u64().unwrap(),
                            process["argv"].as_array().map(|_| texts(&process["argv"])),
                        )
                    })
                    .collect(),
            })
        }
        "workspace.create" => Reply::Created {
            workspace_id: text(&result["workspace"]["workspace_id"]),
            tab_id: text(&result["tab"]["tab_id"]),
        },
        "layout.apply" => Reply::Applied { tab_id: text(&result["layout"]["tab_id"]) },
        _ => Reply::Done,
    }
}

impl World {
    fn new(replies: Vec<String>) -> World {
        World {
            replies: replies.into(),
            files: Vec::new(),
            answers: VecDeque::new(),
            picks: VecDeque::new(),
            seen: Vec::new(),
            prompts: Vec::new(),
            lists: Vec::new(),
            stdout: String::new(),
            stderr: String::new(),
            written: Vec::new(),
        }
    }

    fn file(mut self, name: &str, content: &str) -> World {
        self.files.push((name.to_owned(), File::Text(content.to_owned())));
        self
    }

    fn answer(mut self, line: &str) -> World {
        self.answers.push_back(line.to_owned());
        self
    }

    fn pick(mut self, output: &str) -> World {
        self.picks.push_back(Some(output.to_owned()));
        self
    }

    fn call(&mut self, request: Request) -> Event {
        let method = request.method();
        let message = request.into_message();
        assert_eq!(message.method, method);
        let mut params = serde_json::Map::new();
        for parameter in message.params {
            let value = match parameter.value {
                Value::Text(text) => Json::from(text),
                Value::Flag(flag) => Json::from(flag),
                Value::Null => Json::Null,
                Value::Layout(root) => layout_json(&root),
            };
            params.insert(parameter.name, value);
        }
        let mut seen = serde_json::Map::new();
        seen.insert("id".to_owned(), Json::from(message.id));
        seen.insert("method".to_owned(), Json::from(message.method));
        seen.insert("params".to_owned(), Json::Object(params));
        self.seen.push(Json::Object(seen));
        let line = self.replies.pop_front().unwrap_or_default();
        match read_reply(&method, &line, envelope(&line)) {
            Ok(result) => Event::Reply(decode(&method, &result)),
            Err(message) => Event::Failed(message),
        }
    }

    fn perform(&mut self, action: Action) -> Result<Event, Result<String, String>> {
        Ok(match action {
            Action::Call(request) => self.call(request),
            Action::LoadDefinitions => Event::Definitions(
                self.files
                    .iter()
                    .map(|(_, file)| match file {
                        File::Text(text) => stored(text),
                        File::Written(definition) => {
                            StoredDefinition::Tabs(copy_definition(definition))
                        }
                    })
                    .collect(),
            ),
            Action::SaveDefinition { file_name, definition } => {
                self.written.push(file_name.clone());
                self.files.retain(|(name, _)| *name != file_name);
                self.files.push((file_name, File::Written(definition)));
                Event::Saved
            }
            Action::Ask(prompt) => {
                self.prompts.push(prompt);
                Event::Answer(self.answers.pop_front().unwrap_or_default())
            }
            Action::Pick(lines) => {
                self.lists.push(lines);
                Event::Picked(self.picks.pop_front().unwrap_or(None))
            }
            Action::Finish(result) => return Err(result),
        })
    }

    fn command(&mut self, name: &str) -> Result<(), String> {
        let context = Context {
            version: "0.1.0".to_owned(),
            self_pid: 999,
            caller_pane_id: Some("w7:p1".to_owned()),
        };
        let mut turn: Turn = run(vec![name.to_owned()], context);
        loop {
            match turn.note {
                Some(Note::Line(line)) => self.stdout.push_str(&format!("{line}\n")),
                Some(Note::Warning(line)) => self.stderr.push_str(&format!("{line}\n")),
                None => {}
            }
            match self.perform(turn.action) {
                Ok(event) => turn = turn.session.step(event),
                Err(Ok(output)) => {
                    self.stdout.push_str(&output);
                    return Ok(());
                }
                Err(Err(message)) => {
                    self.stderr.push_str(&format!("pen: {message}\n"));
                    return Err(message);
                }
            }
        }
    }

    fn methods(&self) -> Vec<String> {
        self.seen.iter().map(|request| text(&request["method"])).collect()
    }

    fn definition(&self, name: &str) -> &Definition {
        match self.files.iter().find(|(file, _)| file == name) {
            Some((_, File::Written(definition))) => definition,
            _ => panic!("{name} was not written"),
        }
    }

    fn is_untouched(&self, name: &str, content: &str) -> bool {
        match self.files.iter().find(|(file, _)| file == name) {
            Some((_, File::Text(text))) => text == content,
            _ => false,
        }
    }
}

fn command_of(node: &LayoutNode) -> Option<Vec<String>> {
    match node {
        LayoutNode::Pane { command, .. } => command.clone(),
        LayoutNode::Split { .. } => panic!("not a pane"),
    }
}

fn pane_of_demo() -> String {
    reply(
        r#"{"type":"pane_current","pane":{"pane_id":"w7:p1","workspace_id":"w7","tab_id":"w7:t1"}}"#,
    )
}

fn list_of_demo() -> String {
    reply(
        r#"{"type":"workspace_list","workspaces":[{"workspace_id":"w7","active_tab_id":"w7:t1","label":"demo/project","focused":true}]}"#,
    )
}

fn tab_of_demo() -> String {
    reply(
        r#"{"type":"tab_list","tabs":[{"tab_id":"w7:t1","workspace_id":"w7","number":1,"label":"1","focused":true,"pane_count":1,"agent_status":"unknown"}]}"#,
    )
}

fn layout_of_demo() -> String {
    reply(
        r#"{"type":"layout_export","layout":{"workspace_id":"w7","tab_id":"w7:t1","zoomed":false,"focused_pane_id":"w7:p1","root":{"type":"pane","pane_id":"w7:p1","cwd":"/work"}}}"#,
    )
}

#[test]
fn save_persists_every_tab_with_foreground_commands_as_toml() {
    let mut world = World::new(vec![
        pane_of_demo(),
        list_of_demo(),
        reply(
            r#"{"type":"tab_list","tabs":[{"tab_id":"w7:t1","workspace_id":"w7","number":1,"label":"agent","focused":true,"pane_count":2,"agent_status":"working"},{"tab_id":"w7:t2","workspace_id":"w7","number":2,"label":"docs","focused":false,"pane_count":1,"agent_status":"unknown"}]}"#,
        ),
        reply(
            r#"{"type":"layout_export","layout":{"workspace_id":"w7","tab_id":"w7:t1","zoomed":false,"focused_pane_id":"w7:p1","root":{"type":"split","direction":"right","ratio":0.6,"first":{"type":"pane","pane_id":"w7:p1","cwd":"/work","env":{"MODE":"dev"},"label":"agent"},"second":{"type":"pane","pane_id":"w7:p2","cwd":"/work/docs"}}}}"#,
        ),
        reply(
            r#"{"type":"pane_process_info","process_info":{"pane_id":"w7:p1","shell_pid":100,"foreground_process_group_id":200,"foreground_processes":[{"pid":200,"name":"helix","argv":["helix"],"cmdline":"helix","cwd":"/work"},{"pid":201,"name":"uv","argv":["uv","tool"],"cmdline":"uv tool","cwd":"/work"}]}}"#,
        ),
        reply(
            r#"{"type":"pane_process_info","process_info":{"pane_id":"w7:p2","shell_pid":300,"foreground_process_group_id":300,"foreground_processes":[{"pid":300,"name":"zsh","argv":["/usr/bin/zsh"],"cmdline":"/usr/bin/zsh","cwd":"/work/docs"}]}}"#,
        ),
        reply(
            r#"{"type":"layout_export","layout":{"workspace_id":"w7","tab_id":"w7:t2","zoomed":false,"focused_pane_id":"w7:p3","root":{"type":"pane","pane_id":"w7:p3","cwd":"/work"}}}"#,
        ),
        reply(
            r#"{"type":"pane_process_info","process_info":{"pane_id":"w7:p3","shell_pid":400,"foreground_process_group_id":500,"foreground_processes":[{"pid":500,"name":"codex","argv":["codex"],"cmdline":"codex","cwd":"/work"}]}}"#,
        ),
        reply(r#"{"type":"notification_show"}"#),
    ]);

    assert_eq!(world.command("save"), Ok(()));

    assert_eq!(world.stdout, "saved demo/project\n");
    assert_eq!(world.stderr, "");
    assert_eq!(world.written, ["demo_project.toml"]);
    let mut env = TextMap::new();
    env.insert("MODE".to_owned(), "dev".to_owned());
    let expected = Definition {
        label: "demo/project".to_owned(),
        tabs: vec![
            TabDefinition {
                label: Some("agent".to_owned()),
                active: true,
                root: LayoutNode::Split {
                    direction: "right".to_owned(),
                    ratio: 0.6f64.to_bits(),
                    first: Box::new(LayoutNode::Pane {
                        cwd: Some("/work".to_owned()),
                        command: Some(vec!["helix".to_owned()]),
                        env,
                        label: Some("agent".to_owned()),
                        pane_id: None,
                    }),
                    second: Box::new(LayoutNode::Pane {
                        cwd: Some("/work/docs".to_owned()),
                        command: None,
                        env: TextMap::new(),
                        label: None,
                        pane_id: None,
                    }),
                },
            },
            TabDefinition {
                label: Some("docs".to_owned()),
                active: false,
                root: LayoutNode::Pane {
                    cwd: Some("/work".to_owned()),
                    command: Some(vec!["codex".to_owned()]),
                    env: TextMap::new(),
                    label: None,
                    pane_id: None,
                },
            },
        ],
    };
    assert_eq!(*world.definition("demo_project.toml"), expected);
    assert_eq!(
        world.methods(),
        [
            "pane.current",
            "workspace.list",
            "tab.list",
            "layout.export",
            "pane.process_info",
            "pane.process_info",
            "layout.export",
            "pane.process_info",
            "notification.show"
        ]
    );
    let seen = &world.seen;
    assert_eq!(seen[0]["id"], "pen:pane.current");
    assert_eq!(seen[0]["params"]["caller_pane_id"], "w7:p1");
    assert_eq!(seen[2]["params"]["workspace_id"], "w7");
    assert_eq!(seen[3]["params"]["tab_id"], "w7:t1");
    assert_eq!(seen[4]["params"]["pane_id"], "w7:p1");
    assert_eq!(seen[5]["params"]["pane_id"], "w7:p2");
    assert_eq!(seen[6]["params"]["tab_id"], "w7:t2");
    assert_eq!(seen[7]["params"]["pane_id"], "w7:p3");
    assert_eq!(seen[8]["params"]["title"], "セッション demo/project を保存しました");
}

#[test]
fn save_succeeds_and_warns_when_the_toast_cannot_be_shown() {
    let mut world = World::new(vec![
        pane_of_demo(),
        list_of_demo(),
        tab_of_demo(),
        layout_of_demo(),
        reply(
            r#"{"type":"pane_process_info","process_info":{"pane_id":"w7:p1","shell_pid":100,"foreground_process_group_id":100,"foreground_processes":[{"pid":100,"name":"zsh","argv":["/usr/bin/zsh"],"cmdline":"/usr/bin/zsh","cwd":"/work"}]}}"#,
        ),
        r#"{"id":"test","error":{"message":"notifications unavailable"}}"#.to_owned(),
    ]);

    assert_eq!(world.command("save"), Ok(()));

    assert_eq!(world.definition("demo_project.toml").label, "demo/project");
    assert_eq!(world.stdout, "saved demo/project\n");
    assert_eq!(
        world.stderr,
        "pen: notification failed: herdr notification.show failed: {\"message\":\"notifications unavailable\"}\n"
    );
    assert_eq!(
        world.methods(),
        [
            "pane.current",
            "workspace.list",
            "tab.list",
            "layout.export",
            "pane.process_info",
            "notification.show"
        ]
    );
}

#[test]
fn save_fails_and_keeps_the_old_definition_when_a_pane_cannot_be_inspected() {
    let original = "label = \"demo/project\"\n\n[root]\ntype = \"pane\"\ncwd = \"/old\"\n";
    let mut world = World::new(vec![
        pane_of_demo(),
        list_of_demo(),
        tab_of_demo(),
        layout_of_demo(),
        r#"{"id":"test","error":{"code":"internal","message":"process scan failed"}}"#.to_owned(),
    ])
    .file("demo_project.toml", original);

    let message = world.command("save").unwrap_err();

    assert!(
        message.contains("pane.process_info") && message.contains("process scan failed"),
        "the message should name the failed call: {message}"
    );
    assert!(world.is_untouched("demo_project.toml", original));
    assert!(world.written.is_empty());
}

#[test]
fn save_fails_when_a_foreground_command_cannot_be_determined() {
    let original = "label = \"demo/project\"\n\n[root]\ntype = \"pane\"\ncwd = \"/old\"\n";
    let mut world = World::new(vec![
        pane_of_demo(),
        list_of_demo(),
        tab_of_demo(),
        layout_of_demo(),
        reply(
            r#"{"type":"pane_process_info","process_info":{"pane_id":"w7:p1","shell_pid":100,"foreground_process_group_id":200,"foreground_processes":[{"pid":200,"name":"helix","argv":null,"cmdline":null,"cwd":"/work"}]}}"#,
        ),
    ])
    .file("demo_project.toml", original);

    let message = world.command("save").unwrap_err();

    assert!(
        message.contains("w7:p1") && message.contains("no argv"),
        "the message should name the pane and the missing argv: {message}"
    );
    assert!(world.is_untouched("demo_project.toml", original));
    assert!(world.written.is_empty());
}

/// What herdr says of the workspace `demo` up to what runs in its pane.
fn replies_for_close() -> Vec<String> {
    vec![
        reply(
            r#"{"type":"pane_current","pane":{"pane_id":"w2:p1","workspace_id":"w2","tab_id":"w2:t1"}}"#,
        ),
        reply(
            r#"{"type":"workspace_list","workspaces":[{"workspace_id":"w2","active_tab_id":"w2:t1","label":"demo","focused":true}]}"#,
        ),
        reply(
            r#"{"type":"tab_list","tabs":[{"tab_id":"w2:t1","workspace_id":"w2","number":1,"label":"demo","focused":true,"pane_count":1,"agent_status":"unknown"}]}"#,
        ),
        reply(
            r#"{"type":"layout_export","layout":{"workspace_id":"w2","tab_id":"w2:t1","zoomed":false,"focused_pane_id":"w2:p1","root":{"type":"pane","pane_id":"w2:p1","cwd":"/work"}}}"#,
        ),
        reply(
            r#"{"type":"pane_process_info","process_info":{"pane_id":"w2:p1","shell_pid":100,"foreground_process_group_id":100,"foreground_processes":[{"pid":100,"name":"zsh","argv":["/usr/bin/zsh"],"cmdline":"/usr/bin/zsh","cwd":"/work"}]}}"#,
        ),
        reply(r#"{"type":"workspace_closed","workspace_id":"w2"}"#),
    ]
}

#[test]
fn close_keeps_the_saved_definition_and_closes_the_current_workspace() {
    let original = "label = \"demo\"\n\n[root]\ntype = \"pane\"\ncwd = \"/work\"\n";
    let mut world = World::new(replies_for_close()).file("demo.toml", original);

    assert_eq!(world.command("close"), Ok(()));

    assert!(world.prompts.is_empty());
    assert!(world.is_untouched("demo.toml", original));
    assert_eq!(world.seen[5]["method"], "workspace.close");
    assert_eq!(world.seen[5]["params"]["workspace_id"], "w2");
    assert_eq!(world.stdout, "closed demo\n");
}

#[test]
fn close_discard_closes_an_unsaved_workspace_without_saving() {
    let mut world = World::new(vec![
        reply(
            r#"{"type":"pane_current","pane":{"pane_id":"w2:p1","workspace_id":"w2","tab_id":"w2:t1"}}"#,
        ),
        reply(
            r#"{"type":"workspace_list","workspaces":[{"workspace_id":"w2","active_tab_id":"w2:t1","label":"scratch","focused":true}]}"#,
        ),
        reply(r#"{"type":"workspace_closed","workspace_id":"w2"}"#),
    ])
    .answer("d\n");

    assert_eq!(world.command("close"), Ok(()));

    assert_eq!(
        world.prompts,
        ["Workspace \"scratch\" is not saved. [s]ave, [d]iscard or [c]ancel? "]
    );
    assert_eq!(world.methods(), ["pane.current", "workspace.list", "workspace.close"]);
    assert!(world.files.is_empty());
}

#[test]
fn close_asks_when_the_workspace_differs_from_its_saved_definition() {
    let original = "label = \"demo\"\n\n[root]\ntype = \"pane\"\ncwd = \"/old\"\n";
    let mut world = World::new(replies_for_close()).file("demo.toml", original).answer("d\n");

    assert_eq!(world.command("close"), Ok(()));

    assert_eq!(
        world.prompts,
        ["Workspace \"demo\" differs from its saved definition. [u]pdate, [d]iscard or [c]ancel? "]
    );
    assert!(world.is_untouched("demo.toml", original));
    assert_eq!(world.seen.last().unwrap()["method"], "workspace.close");
}

#[test]
fn close_update_rewrites_the_saved_definition_before_closing() {
    let mut world = World::new(replies_for_close())
        .file("demo.toml", "label = \"demo\"\n\n[root]\ntype = \"pane\"\ncwd = \"/old\"\n")
        .answer("u\n");

    assert_eq!(world.command("close"), Ok(()));

    let updated = world.definition("demo.toml");
    assert_eq!(updated.tabs.len(), 1);
    assert_eq!(
        updated.tabs[0].root,
        LayoutNode::Pane {
            cwd: Some("/work".to_owned()),
            command: None,
            env: TextMap::new(),
            label: None,
            pane_id: None,
        }
    );
    assert_eq!(world.seen.last().unwrap()["method"], "workspace.close");
}

#[test]
fn close_save_writes_an_unsaved_workspace_before_closing() {
    let mut world = World::new(replies_for_close()).answer("Save\n");

    assert_eq!(world.command("close"), Ok(()));

    assert_eq!(world.written, ["demo.toml"]);
    assert_eq!(world.definition("demo.toml").tabs[0].label, Some("demo".to_owned()));
    assert_eq!(world.seen.last().unwrap()["method"], "workspace.close");

    let mut again = World::new(replies_for_close());
    again.files = world.files;
    assert_eq!(again.command("close"), Ok(()));
    assert!(again.prompts.is_empty());
}

#[test]
fn close_cancel_leaves_the_workspace_open() {
    for answer in ["c\n", "\n", "", "y\n", "u\n"] {
        let mut world = World::new(replies_for_close()).answer(answer);
        assert_eq!(
            world.command("close"),
            Err("close cancelled; workspace has no saved definition".to_owned())
        );
        assert_eq!(world.methods(), ["pane.current", "workspace.list"]);
        assert!(world.written.is_empty());
    }
    for answer in ["c\n", "\n", "s\n"] {
        let mut world = World::new(replies_for_close())
            .file("demo.toml", "label = \"demo\"\n\n[root]\ntype = \"pane\"\ncwd = \"/old\"\n")
            .answer(answer);
        assert_eq!(
            world.command("close"),
            Err("close cancelled; workspace differs from its saved definition".to_owned())
        );
        assert!(!world.methods().contains(&"workspace.close".to_owned()));
        assert!(world.written.is_empty());
    }
}

/// What herdr says when the workspace `w9` is created.
fn created(label: &str) -> String {
    reply(&format!(
        r#"{{"type":"workspace_created","workspace":{{"workspace_id":"w9","number":9,"label":"{label}","focused":false,"pane_count":1,"tab_count":1,"active_tab_id":"w9:t1","agent_status":"unknown"}},"tab":{{"tab_id":"w9:t1","workspace_id":"w9","number":1,"label":"1","focused":false,"pane_count":1,"agent_status":"unknown"}}}}"#
    ))
}

#[test]
fn picker_space_restores_a_legacy_definition_and_keeps_the_picker_open() {
    let mut world = World::new(vec![
        reply(r#"{"type":"workspace_list","workspaces":[]}"#),
        created("sleeping"),
        reply(
            r#"{"type":"layout_apply","layout":{"workspace_id":"w9","tab_id":"w9:t2","zoomed":false,"focused_pane_id":"w9:p2","root":{"type":"pane","pane_id":"w9:p2","cwd":"/sleeping","command":["helix"]}}}"#,
        ),
        reply(r#"{"type":"tab_focus"}"#),
        reply(
            r#"{"type":"workspace_list","workspaces":[{"workspace_id":"w9","active_tab_id":"w9:t2","label":"sleeping","focused":false}]}"#,
        ),
    ])
    .file(
        "sleeping.toml",
        "label = \"sleeping\"\n\n[root]\ntype = \"pane\"\ncwd = \"/sleeping\"\ncommand = [\"helix\"]\n",
    )
    .pick("space\n○\tsleeping\n")
    .pick("esc\n");

    assert_eq!(world.command("picker"), Ok(()));

    assert_eq!(world.stdout, "restored sleeping\n");
    assert_eq!(world.lists, ["○\tsleeping", "●\tsleeping"]);
    assert_eq!(
        world.methods(),
        ["workspace.list", "workspace.create", "layout.apply", "tab.focus", "workspace.list"]
    );
    let seen = &world.seen;
    assert_eq!(seen[1]["params"]["label"], "sleeping");
    assert_eq!(seen[1]["params"]["focus"], false);
    assert_eq!(seen[2]["params"]["tab_id"], "w9:t1");
    assert!(seen[2]["params"].get("workspace_id").is_none());
    assert_eq!(seen[2]["params"]["focus"], false);
    assert_eq!(seen[2]["params"]["tab_label"], "sleeping");
    assert_eq!(seen[2]["params"]["root"]["command"][0], "helix");
    assert_eq!(seen[3]["params"]["tab_id"], "w9:t2");
}

#[test]
fn picker_space_then_enter_closes_two_running_workspaces() {
    let mut world = World::new(vec![
        reply(
            r#"{"type":"workspace_list","workspaces":[{"workspace_id":"w1","active_tab_id":"w1:t1","label":"alpha","focused":true},{"workspace_id":"w2","active_tab_id":"w2:t1","label":"beta","focused":false}]}"#,
        ),
        reply(r#"{"type":"workspace_closed","workspace_id":"w1"}"#),
        reply(
            r#"{"type":"workspace_list","workspaces":[{"workspace_id":"w2","active_tab_id":"w2:t1","label":"beta","focused":true}]}"#,
        ),
        reply(r#"{"type":"workspace_closed","workspace_id":"w2"}"#),
    ])
    .pick("space\n●\talpha\n")
    .pick("enter\n●\tbeta\n")
    .answer("d\n")
    .answer("d\n");

    assert_eq!(world.command("picker"), Ok(()));

    assert_eq!(world.stdout, "closed alpha\nclosed beta\n");
    assert_eq!(
        world.methods(),
        ["workspace.list", "workspace.close", "workspace.list", "workspace.close"]
    );
    assert_eq!(world.seen[1]["params"]["workspace_id"], "w1");
    assert_eq!(world.seen[3]["params"]["workspace_id"], "w2");
}

const AGENTS: &str = "label = \"agents\"\n\n[[tabs]]\nlabel = \"agent\"\n\n[tabs.root]\ntype = \"pane\"\ncwd = \"/work\"\ncommand = [\"helix\"]\n\n[[tabs]]\nlabel = \"docs\"\nactive = true\n\n[tabs.root]\ntype = \"pane\"\ncwd = \"/work/docs\"\ncommand = [\"codex\"]\n";

#[test]
fn picker_enter_restores_every_tab_of_a_multi_tab_definition() {
    let mut world = World::new(vec![
        reply(r#"{"type":"workspace_list","workspaces":[]}"#),
        created("agents"),
        reply(
            r#"{"type":"layout_apply","layout":{"workspace_id":"w9","tab_id":"w9:t2","zoomed":false,"focused_pane_id":"w9:p2","root":{"type":"pane","pane_id":"w9:p2","cwd":"/work","command":["helix"]}}}"#,
        ),
        reply(
            r#"{"type":"layout_apply","layout":{"workspace_id":"w9","tab_id":"w9:t3","zoomed":false,"focused_pane_id":"w9:p3","root":{"type":"pane","pane_id":"w9:p3","cwd":"/work/docs","command":["codex"]}}}"#,
        ),
        reply(r#"{"type":"tab_focus"}"#),
        reply(r#"{"type":"workspace_focus"}"#),
    ])
    .file("agents.toml", AGENTS)
    .pick("enter\n○\tagents\n");

    assert_eq!(world.command("picker"), Ok(()));

    assert_eq!(world.stdout, "restored agents\n");
    assert_eq!(
        world.methods(),
        [
            "workspace.list",
            "workspace.create",
            "layout.apply",
            "layout.apply",
            "tab.focus",
            "workspace.focus"
        ]
    );
    let seen = &world.seen;
    assert_eq!(seen[2]["params"]["tab_id"], "w9:t1");
    assert!(seen[2]["params"].get("workspace_id").is_none());
    assert_eq!(seen[2]["params"]["tab_label"], "agent");
    assert_eq!(seen[2]["params"]["focus"], false);
    assert_eq!(seen[2]["params"]["root"]["command"][0], "helix");
    assert_eq!(seen[3]["params"]["workspace_id"], "w9");
    assert!(seen[3]["params"].get("tab_id").is_none());
    assert_eq!(seen[3]["params"]["tab_label"], "docs");
    assert_eq!(seen[3]["params"]["focus"], false);
    assert_eq!(seen[3]["params"]["root"]["command"][0], "codex");
    assert_eq!(seen[4]["params"]["tab_id"], "w9:t3");
    assert_eq!(seen[5]["params"]["workspace_id"], "w9");
}

#[test]
fn version_flag_reports_the_cargo_package_version() {
    for flag in ["--version", "-V", "version"] {
        let mut world = World::new(Vec::new());
        assert_eq!(world.command(flag), Ok(()), "{flag}");
        assert_eq!(world.stdout, format!("pen {}\n", "0.1.0"), "{flag}");
    }
}

#[test]
fn help_is_printed_on_demand_and_without_a_command() {
    for flag in ["help", "--help", "-h"] {
        let mut world = World::new(Vec::new());
        assert_eq!(world.command(flag), Ok(()), "{flag}");
        assert_eq!(world.stdout, HELP, "{flag}");
    }
    let context =
        Context { version: "0.1.0".to_owned(), self_pid: 999, caller_pane_id: None };
    let turn = run(Vec::new(), context);
    assert_eq!(turn.action, Action::Finish(Ok(HELP.to_owned())));
}

#[test]
fn other_arguments_are_refused() {
    let mut world = World::new(Vec::new());
    assert_eq!(world.command("open"), Err(format!("unknown command: open\n\n{HELP}")));
    let context =
        Context { version: "0.1.0".to_owned(), self_pid: 999, caller_pane_id: None };
    let turn = run(vec!["save".to_owned(), "now".to_owned()], context);
    assert_eq!(turn.action, Action::Finish(Err(format!("too many arguments\n\n{HELP}"))));
}

#[test]
fn the_focused_pane_counts_where_no_caller_is_known() {
    let context =
        Context { version: "0.1.0".to_owned(), self_pid: 999, caller_pane_id: None };
    let turn = run(vec!["save".to_owned()], context);
    assert_eq!(turn.action, Action::Call(Request::CurrentPane { caller_pane_id: None }));
    let message = Request::CurrentPane { caller_pane_id: None }.into_message();
    assert!(message.params.is_empty());
}

#[test]
fn save_fails_for_a_workspace_that_is_gone_or_empty() {
    let mut world = World::new(vec![
        pane_of_demo(),
        reply(r#"{"type":"workspace_list","workspaces":[]}"#),
    ]);
    assert_eq!(
        world.command("save"),
        Err("current workspace w7 was not found".to_owned())
    );
    let mut world = World::new(vec![
        pane_of_demo(),
        list_of_demo(),
        reply(r#"{"type":"tab_list","tabs":[]}"#),
    ]);
    assert_eq!(world.command("save"), Err("workspace demo/project has no tabs".to_owned()));
    assert!(world.written.is_empty());
}

#[test]
fn picker_fails_where_there_is_nothing_to_choose() {
    let mut world = World::new(vec![reply(r#"{"type":"workspace_list","workspaces":[]}"#)]);
    assert_eq!(world.command("picker"), Err("no saved or running workspaces".to_owned()));
    assert!(world.lists.is_empty());
}

#[test]
fn picker_fails_on_a_label_that_was_not_offered() {
    let mut world = World::new(vec![reply(r#"{"type":"workspace_list","workspaces":[]}"#)])
        .file("agents.toml", AGENTS)
        .pick("enter\n○\tnobody\n");
    assert_eq!(world.command("picker"), Err("saved definition not found: nobody".to_owned()));
}

#[test]
fn picker_does_nothing_without_a_choice() {
    for output in ["", "esc\n", "esc\n○\tagents\n", "enter\n", "enter\n○\t\n", "enter\nagents\n"] {
        let mut world = World::new(vec![reply(r#"{"type":"workspace_list","workspaces":[]}"#)])
            .file("agents.toml", AGENTS)
            .pick(output);
        assert_eq!(world.command("picker"), Ok(()), "{output:?}");
        assert_eq!(world.methods(), ["workspace.list"], "{output:?}");
        assert_eq!(world.stdout, "", "{output:?}");
    }
    let mut world = World::new(vec![reply(r#"{"type":"workspace_list","workspaces":[]}"#)])
        .file("agents.toml", AGENTS);
    assert_eq!(world.command("picker"), Ok(()));
    assert_eq!(world.methods(), ["workspace.list"]);
}

#[test]
fn picker_lists_saved_and_running_workspaces_in_order() {
    let mut world = World::new(vec![reply(
        r#"{"type":"workspace_list","workspaces":[{"workspace_id":"w1","active_tab_id":"w1:t1","label":"zeta","focused":true},{"workspace_id":"w2","active_tab_id":"w2:t1","label":"agents","focused":false},{"workspace_id":"w3","active_tab_id":"w3:t1","label":"Beta","focused":false}]}"#,
    )])
    .file("sleeping.toml", "label = \"sleeping\"\n\n[root]\ntype = \"pane\"\n")
    .file("agents.toml", AGENTS);
    assert_eq!(world.command("picker"), Ok(()));
    assert_eq!(world.lists, ["●\tBeta\n●\tagents\n○\tsleeping\n●\tzeta"]);
}

#[test]
fn restore_fails_on_a_definition_without_tabs() {
    let mut world = World::new(vec![reply(r#"{"type":"workspace_list","workspaces":[]}"#)])
        .file("void.toml", "label = \"void\"\ntabs = []\n")
        .pick("enter\n○\tvoid\n");
    assert_eq!(world.command("picker"), Err("definition \"void\" has no tabs".to_owned()));
    assert_eq!(world.methods(), ["workspace.list"]);
}

#[test]
fn restore_tells_of_the_workspace_that_it_leaves_behind() {
    let refused = r#"{"id":"test","error":{"code":"invalid_target"}}"#.to_owned();
    let mut world = World::new(vec![
        reply(r#"{"type":"workspace_list","workspaces":[]}"#),
        created("agents"),
        refused.clone(),
    ])
    .file("agents.toml", AGENTS)
    .pick("enter\n○\tagents\n");
    assert_eq!(
        world.command("picker"),
        Err(
            "herdr layout.apply failed: {\"code\":\"invalid_target\"} (restore left an incomplete workspace \"agents\"; close it manually)"
                .to_owned()
        )
    );
    let mut world =
        World::new(vec![reply(r#"{"type":"workspace_list","workspaces":[]}"#), refused])
            .file("agents.toml", AGENTS)
            .pick("enter\n○\tagents\n");
    assert_eq!(
        world.command("picker"),
        Err("herdr workspace.create failed: {\"code\":\"invalid_target\"}".to_owned())
    );
}

#[test]
fn the_first_tab_is_selected_where_none_was_active() {
    let mut world = World::new(vec![
        reply(r#"{"type":"workspace_list","workspaces":[]}"#),
        created("two"),
        reply(r#"{"layout":{"tab_id":"w9:t2"}}"#),
        reply(r#"{"layout":{"tab_id":"w9:t3"}}"#),
        reply("{}"),
        reply("{}"),
    ])
    .file(
        "two.toml",
        "label = \"two\"\n\n[[tabs]]\n[tabs.root]\ntype = \"pane\"\n\n[[tabs]]\n[tabs.root]\ntype = \"pane\"\n",
    )
    .pick("enter\n○\ttwo\n");
    assert_eq!(world.command("picker"), Ok(()));
    assert_eq!(world.seen[2]["params"]["tab_label"], Json::Null);
    assert_eq!(world.seen[4]["method"], "tab.focus");
    assert_eq!(world.seen[4]["params"]["tab_id"], "w9:t2");
}

#[test]
fn what_was_saved_is_restored() {
    let mut world = World::new(vec![
        pane_of_demo(),
        list_of_demo(),
        reply(
            r#"{"tabs":[{"tab_id":"w7:t3","label":"docs"},{"tab_id":"w7:t1","label":"agent"}]}"#,
        ),
        reply(r#"{"layout":{"root":{"type":"pane","pane_id":"w7:p1","cwd":"/docs"}}}"#),
        reply(
            r#"{"process_info":{"shell_pid":1,"foreground_process_group_id":2,"foreground_processes":[{"pid":2,"argv":["vim","a b"]}]}}"#,
        ),
        reply(r#"{"layout":{"root":{"type":"pane","cwd":"/work"}}}"#),
        reply("{}"),
    ]);
    assert_eq!(world.command("save"), Ok(()));
    world.replies = VecDeque::from(vec![
        reply(r#"{"workspaces":[]}"#),
        created("demo/project"),
        reply(r#"{"layout":{"tab_id":"w9:t2"}}"#),
        reply(r#"{"layout":{"tab_id":"w9:t3"}}"#),
        reply("{}"),
        reply("{}"),
    ]);
    world.seen.clear();
    world.picks.push_back(Some("enter\n○\tdemo/project\n".to_owned()));
    assert_eq!(world.command("picker"), Ok(()));
    let seen = &world.seen;
    assert_eq!(seen[1]["params"]["label"], "demo/project");
    assert_eq!(seen[2]["params"]["tab_label"], "docs");
    assert_eq!(seen[2]["params"]["root"]["cwd"], "/docs");
    assert_eq!(seen[2]["params"]["root"]["command"][1], "a b");
    assert_eq!(seen[3]["params"]["tab_label"], "agent");
    assert_eq!(seen[4]["params"]["tab_id"], "w9:t3");
    assert_eq!(
        command_of(&world.definition("demo_project.toml").tabs[0].root),
        Some(vec!["vim".to_owned(), "a b".to_owned()])
    );
}

#[test]
fn a_silent_herdr_ends_the_command() {
    let mut world = World::new(Vec::new());
    assert_eq!(
        world.command("save"),
        Err("herdr returned no response for pane.current".to_owned())
    );
}
