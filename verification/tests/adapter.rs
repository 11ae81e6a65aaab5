use std::collections::{HashMap, VecDeque};

use pi_acp::acp::{ErrorKind, Peer, RequestId, RpcError, FIRST_REQUEST_ID};
use pi_acp::adapter::{Adapter, AdapterConfig};
use pi_acp::flow::{ask_permission, message_record, Action, Event, Message, Next, Outcome, Stage};
use pi_acp::index::SessionIndex;
use pi_acp::json::Json;
use pi_acp::pi_rpc::{PiEvent, PiOutput};
use pi_acp::requests::{decode_notification, decode_request};

fn parse(text: &str) -> Json {
    Json::parse(text.as_bytes()).unwrap()
}

fn quoted(text: &str) -> String {
    Json::text(text).display()
}

/// A Pi that does what the tests need.
struct FakePi {
    session: String,
    file: Option<String>,
    level: String,
    model: (String, String),
    name: Option<String>,
    broken: Vec<String>,
}

impl FakePi {
    fn new() -> FakePi {
        FakePi {
            session: "fake-session".to_owned(),
            file: Some("/state/fake.jsonl".to_owned()),
            level: "medium".to_owned(),
            model: ("acme".to_owned(), "nova".to_owned()),
            name: None,
            broken: Vec::new(),
        }
    }

    fn state(&self) -> String {
        let mut text = format!(
            r#"{{"sessionId":{},"thinkingLevel":{},"model":{{"provider":{},"id":{},"reasoning":true}}"#,
            quoted(&self.session),
            quoted(&self.level),
            quoted(&self.model.0),
            quoted(&self.model.1)
        );
        if let Some(file) = &self.file {
            text.push_str(&format!(r#","sessionFile":{}"#, quoted(file)));
        }
        if let Some(name) = &self.name {
            text.push_str(&format!(r#","sessionName":{}"#, quoted(name)));
        }
        text.push('}');
        text
    }

    fn turn(message: &str) -> Vec<String> {
        let text = |text: &str| {
            format!(
                r#"{{"type":"message_update","assistantMessageEvent":{{"type":"text_delta","contentIndex":0,"delta":{}}}}}"#,
                quoted(text)
            )
        };
        let settled = r#"{"type":"agent_settled"}"#.to_owned();
        match message {
            "wait" => Vec::new(),
            "ui" => vec![r#"{"type":"extension_ui_request","id":"q","method":"select","title":"Pick","options":["first","second"]}"#.to_owned()],
            "input" => vec![r#"{"type":"extension_ui_request","id":"q","method":"input","title":"Name"}"#.to_owned()],
            "notify" => vec![
                r#"{"type":"extension_ui_request","id":"q","method":"notify","message":"m"}"#.to_owned(),
                settled,
            ],
            "edit" => vec![
                r#"{"type":"tool_execution_start","toolCallId":"e","toolName":"edit","args":{"path":"f.txt"}}"#.to_owned(),
                r#"{"type":"tool_execution_end","toolCallId":"e","result":{"content":[]}}"#.to_owned(),
                settled,
            ],
            "legacy" => vec![text("old"), r#"{"type":"agent_end"}"#.to_owned()],
            "retry" => vec![
                r#"{"type":"agent_end","willRetry":true}"#.to_owned(),
                text("again"),
                settled,
            ],
            _ => vec![
                r#"{"type":"message_update","assistantMessageEvent":{"type":"thinking_delta","delta":"hm"}}"#.to_owned(),
                r#"{"type":"tool_execution_start","toolCallId":"t","toolName":"bash","args":{"command":"ls"}}"#.to_owned(),
                r#"{"type":"tool_execution_end","toolCallId":"t","result":{"content":[{"type":"text","text":"x"}]}}"#.to_owned(),
                text(&format!("reply:{message}")),
                settled,
            ],
        }
    }

    /// The data of the response, and the events that follow it.
    fn take(&mut self, command: &Json) -> (Result<String, String>, Vec<String>) {
        let kind = command.str_at("type").unwrap().to_owned();
        if self.broken.contains(&kind) {
            return (Err(format!("{kind} is broken")), Vec::new());
        }
        let ok = |text: &str| Ok(text.to_owned());
        match kind.as_str() {
            "get_state" => (Ok(self.state()), Vec::new()),
            "get_available_models" => (
                ok(r#"{"models":[{"provider":"openai","id":"gpt-5"},{"provider":"acme","id":"nova"}]}"#),
                Vec::new(),
            ),
            "get_commands" => (ok(r#"{"commands":[{"name":"plan"}]}"#), Vec::new()),
            "get_messages" => (
                ok(r#"{"messages":[{"role":"user","content":"1"},{"role":"assistant","content":[{"type":"text","text":"reply:1"}]}]}"#),
                Vec::new(),
            ),
            "compact" => (ok(r#"{"summary":"compacted"}"#), Vec::new()),
            "set_session_name" => {
                self.name = command.str_at("name").map(str::to_owned);
                (ok("null"), Vec::new())
            }
            "set_thinking_level" => {
                self.level = command.str_at("level").unwrap().to_owned();
                (ok("null"), Vec::new())
            }
            "set_model" => {
                self.model = (
                    command.str_at("provider").unwrap().to_owned(),
                    command.str_at("modelId").unwrap().to_owned(),
                );
                (ok("null"), Vec::new())
            }
            "clone" => {
                self.session = "fork-1".to_owned();
                self.file = Some("/state/fork.jsonl".to_owned());
                (ok("null"), Vec::new())
            }
            "prompt" => (ok("null"), FakePi::turn(command.str_at("message").unwrap())),
            "abort" => (ok("null"), vec![r#"{"type":"agent_settled"}"#.to_owned()]),
            other => (Err(format!("unknown command {other}")), Vec::new()),
        }
    }
}

struct World {
    adapter: Adapter,
    index: SessionIndex,
    index_fails: bool,
    pis: HashMap<usize, FakePi>,
    next_pi: Option<FakePi>,
    events: HashMap<usize, VecDeque<PiEvent>>,
    started: Vec<(usize, String, Vec<String>)>,
    start_fails: bool,
    killed: Vec<usize>,
    files: VecDeque<String>,
    asked: Vec<Json>,
    warnings: Vec<String>,
}

#[derive(Default)]
struct Told {
    replies: Vec<Json>,
    error: Option<RpcError>,
    updates: Vec<Json>,
}

impl Told {
    fn result(&self) -> &Json {
        if let Some(error) = &self.error {
            panic!("{:?} {:?}", error.kind, error.data);
        }
        &self.replies[0]
    }

    fn failure(&self) -> (ErrorKind, &str) {
        let error = self.error.as_ref().unwrap();
        (error.kind, error.data.as_deref().unwrap())
    }

    fn kinds(&self) -> Vec<&str> {
        self.updates.iter().map(|u| u.str_in("update", "sessionUpdate").unwrap()).collect()
    }

    fn texts(&self) -> Vec<&str> {
        self.updates
            .iter()
            .filter_map(|u| u.get_in("update", "content"))
            .filter_map(|content| content.str_at("text"))
            .collect()
    }
}

impl World {
    fn new() -> World {
        World::with_queue(32)
    }

    fn with_queue(max_queued_prompts: usize) -> World {
        let adapter = Adapter::new(AdapterConfig {
            pi_command: "pi".to_owned(),
            state_dir: "/state".to_owned(),
            append_system_prompts: vec!["be kind".to_owned()],
            pi_args: vec!["--offline".to_owned()],
            max_queued_prompts,
            max_tracked_tool_calls: 512,
        });
        World {
            adapter,
            index: SessionIndex::new(),
            index_fails: false,
            pis: HashMap::new(),
            next_pi: None,
            events: HashMap::new(),
            started: Vec::new(),
            start_fails: false,
            killed: Vec::new(),
            files: VecDeque::new(),
            asked: Vec::new(),
            warnings: Vec::new(),
        }
    }

    fn feed(&mut self, session: usize, lines: &[String]) -> Vec<PiOutput> {
        let mut replies = Vec::new();
        for line in lines {
            let got = self.adapter.receive(session, format!("{line}\n").as_bytes());
            assert!(!got.ended);
            for output in got.outputs {
                match output {
                    PiOutput::Event(event) => {
                        self.events.entry(session).or_default().push_back(event);
                    }
                    reply => replies.push(reply),
                }
            }
        }
        replies
    }

    fn ask(&mut self, session: usize, command: Json) -> Result<Json, String> {
        let (id, record) = self.adapter.command(session, command)?;
        let command = Json::parse(&record).unwrap();
        let (data, events) = self.pis.get_mut(&session).unwrap().take(&command);
        let line = match data {
            Ok(data) => {
                format!(r#"{{"type":"response","id":{},"success":true,"data":{data}}}"#, quoted(&id))
            }
            Err(text) => format!(
                r#"{{"type":"response","id":{},"success":false,"error":{}}}"#,
                quoted(&id),
                quoted(&text)
            ),
        };
        let mut replies = self.feed(session, &[line]);
        self.feed(session, &events);
        match replies.pop() {
            Some(PiOutput::Reply { id: answered, result }) => {
                assert_eq!(answered, id);
                result
            }
            _ => panic!("no response"),
        }
    }

    /// Does what an action asks for; `None` where there is nothing to hear yet.
    fn act(&mut self, action: Action) -> Result<Event, Action> {
        Ok(match action {
            Action::FindStored(id) => Event::Stored(Ok(self.index.get(&id))),
            Action::Start { session, cwd, arguments } => {
                if self.start_fails {
                    Event::Started(Err("no such program".to_owned()))
                } else {
                    self.started.push((session, cwd, arguments));
                    let pi = self.next_pi.take().unwrap_or_else(FakePi::new);
                    self.pis.insert(session, pi);
                    Event::Started(Ok(()))
                }
            }
            Action::AskBoth(session) => {
                let state = self.ask(session, parse(r#"{"type":"get_state"}"#));
                let models = self.ask(session, parse(r#"{"type":"get_available_models"}"#));
                Event::Both(state.and_then(|state| models.map(|models| (state, models))))
            }
            Action::Ask { session, command, listen } => {
                if listen {
                    self.events.insert(session, VecDeque::new());
                }
                Event::Answer(self.ask(session, command))
            }
            Action::Upsert(session) => {
                if self.index_fails {
                    Event::Finished(Err("disk full".to_owned()))
                } else {
                    self.index.upsert(session);
                    Event::Finished(Ok(()))
                }
            }
            Action::TakeTurn(session) => {
                if self.adapter.turn_is_free(session) {
                    Event::TurnTaken
                } else {
                    return Err(Action::TakeTurn(session));
                }
            }
            Action::Listen(session) => match self.events.entry(session).or_default().pop_front() {
                Some(event) => Event::Heard(event),
                None => return Err(Action::Listen(session)),
            },
            Action::ReadFile(_) => Event::File(self.files.pop_front()),
            Action::AskClient(params) => {
                self.asked.push(params);
                Event::Replied(Ok(parse(
                    r#"{"outcome":{"outcome":"selected","optionId":"choice-0"}}"#,
                )))
            }
            Action::ListStored(cwd) => Event::Listed(Ok(self.index.list(cwd.as_deref()))),
            Action::Kill(session) => {
                self.killed.push(session);
                Event::Finished(Ok(()))
            }
            Action::CheckCwd | Action::NameSession | Action::ReadClock | Action::Locate => {
                panic!("a look is not for the outside")
            }
        })
    }

    fn take(&mut self, outcome: Outcome, told: &mut Told) -> Option<(Stage, Action)> {
        for message in outcome.messages {
            match message {
                Message::Update(params) => told.updates.push(params),
                Message::Reply(result) => told.replies.push(result),
            }
        }
        if let Some(warning) = outcome.warning {
            self.warnings.push(warning);
        }
        if let Some((session, record)) = outcome.to_pi {
            let response = Json::parse(&record).unwrap();
            let text = match response.str_at("value") {
                Some(value) => format!("selected:{value}"),
                None => "cancelled".to_owned(),
            };
            let lines = vec![
                format!(
                    r#"{{"type":"message_update","assistantMessageEvent":{{"type":"text_delta","delta":{}}}}}"#,
                    quoted(&text)
                ),
                r#"{"type":"agent_settled"}"#.to_owned(),
            ];
            self.feed(session, &lines);
        }
        match outcome.next {
            Next::Do(stage, action) => Some((stage, action)),
            Next::Done => None,
            Next::Failed(error) => {
                told.error = Some(error);
                None
            }
        }
    }

    /// Goes on until the request is over, or nothing more can be done for it now.
    fn go_on(
        &mut self,
        mut waiting: Option<(Stage, Action)>,
        told: &mut Told,
    ) -> Option<(Stage, Action)> {
        while let Some((stage, action)) = waiting {
            assert!(self.adapter.holds(&stage));
            match self.act(action) {
                Ok(event) => {
                    assert!(stage.waits_for(&event));
                    let outcome = self.adapter.advance(stage, event);
                    waiting = self.take(outcome, told);
                }
                Err(action) => return Some((stage, action)),
            }
        }
        None
    }

    fn begin(&mut self, method: &str, params: &str, told: &mut Told) -> Option<(Stage, Action)> {
        match decode_request(method, Some(parse(params))) {
            Ok(request) => {
                let outcome = self.adapter.begin(request);
                let waiting = self.take(outcome, told);
                self.go_on(waiting, told)
            }
            Err(error) => {
                told.error = Some(error);
                None
            }
        }
    }

    fn request(&mut self, method: &str, params: &str) -> Told {
        let mut told = Told::default();
        assert!(self.begin(method, params, &mut told).is_none());
        told
    }

    fn create(&mut self) -> String {
        let created = self.request("session/new", r#"{"cwd":"/work","mcpServers":[]}"#);
        created.result().str_at("sessionId").unwrap().to_owned()
    }

    fn prompt(&mut self, id: &str, text: &str) -> Told {
        self.request("session/prompt", &prompt_params(id, text))
    }

    fn cancel(&mut self, id: &str) {
        let params = parse(&format!(r#"{{"sessionId":{}}}"#, quoted(id)));
        let id = decode_notification("session/cancel", Some(params)).ok().unwrap();
        let outcome = self.adapter.cancel(&id);
        let mut told = Told::default();
        let waiting = self.take(outcome, &mut told);
        assert!(self.go_on(waiting, &mut told).is_none());
        assert!(told.error.is_none());
    }
}

fn prompt_params(id: &str, text: &str) -> String {
    format!(
        r#"{{"sessionId":{},"prompt":[{{"type":"text","text":{}}}]}}"#,
        quoted(id),
        quoted(text)
    )
}

#[test]
fn full_session_lifecycle_and_multi_turn() {
    let mut acp = World::new();
    let initialize = acp.request(
        "initialize",
        r#"{"protocolVersion":1,"clientCapabilities":{"auth":{"terminal":true}}}"#,
    );
    let initialize = initialize.result();
    assert_eq!(initialize.get("protocolVersion").unwrap().as_i64(), Some(1));
    assert!(initialize.get("agentCapabilities").unwrap().is_true("loadSession"));
    let method = &initialize.items_at("authMethods").unwrap()[0];
    assert_eq!(method.str_at("type"), Some("terminal"));
    assert_eq!(method.items_at("args").unwrap()[0].as_str(), Some("--terminal-login"));
    let session = initialize.get_in("agentCapabilities", "sessionCapabilities").unwrap();
    assert!(matches!(session.get("close"), Some(Json::Object(_))));
    assert!(matches!(session.get("resume"), Some(Json::Object(_))));

    let created = acp.request(
        "session/new",
        r#"{"cwd":"/work","mcpServers":[],"_meta":{"systemPrompt":"test instructions"}}"#,
    );
    let id = created.result().str_at("sessionId").unwrap().to_owned();
    assert_eq!(id, "fake-session");
    assert_eq!(created.result().str_in("modes", "currentModeId"), Some("medium"));
    assert!(created.result().get("modes").unwrap().items_at("availableModes").is_some());
    let options = created.result().items_at("configOptions").unwrap();
    let model = options.iter().find(|o| o.has_text("id", "model")).unwrap();
    assert_eq!(model.str_at("category"), Some("model"));
    assert_eq!(model.items_at("options").unwrap().len(), 2, "models grouped by provider");
    assert_eq!(created.kinds(), vec!["available_commands_update"]);

    for number in ["1", "2"] {
        let turn = acp.prompt(&id, number);
        assert_eq!(turn.result().str_at("stopReason"), Some("end_turn"));
        let kinds = turn.kinds();
        assert!(kinds.contains(&"agent_thought_chunk"));
        assert!(kinds.contains(&"tool_call"));
        assert!(kinds.contains(&"tool_call_update"));
        assert!(turn.texts().contains(&format!("reply:{number}").as_str()));
    }

    acp.files = VecDeque::from(vec!["before".to_owned(), "after".to_owned()]);
    let edit = acp.prompt(&id, "edit");
    let diff = edit.updates.iter().any(|u| {
        let update = u.get("update").unwrap();
        update.items_at("content").is_some_and(|c| !c.is_empty() && c[0].has_text("type", "diff"))
    });
    assert!(diff);

    let ui = acp.prompt(&id, "ui");
    assert_eq!(ui.result().str_at("stopReason"), Some("end_turn"));
    assert_eq!(acp.asked.len(), 1);
    assert!(ui.texts().contains(&"selected:first"));

    let listed = acp.request("session/list", r#"{"cwd":"/work"}"#);
    let first = &listed.result().items_at("sessions").unwrap()[0];
    assert_eq!(first.str_at("sessionId"), Some(id.as_str()));

    let configured = acp.request(
        "session/set_config_option",
        &format!(r#"{{"sessionId":"{id}","configId":"model","value":"openai/gpt-5"}}"#),
    );
    let options = configured.result().items_at("configOptions").unwrap();
    assert_eq!(options[0].str_at("currentValue"), Some("openai/gpt-5"));
    assert!(configured.kinds().contains(&"config_option_update"));

    let mode =
        acp.request("session/set_mode", &format!(r#"{{"sessionId":"{id}","modeId":"high"}}"#));
    assert_eq!(mode.result().display(), "{}");
    assert!(mode.kinds().contains(&"current_mode_update"));

    let closed = acp.request("session/close", &format!(r#"{{"sessionId":"{id}"}}"#));
    assert_eq!(closed.result().display(), "{}");
    let known = format!(r#"{{"sessionId":"{id}","cwd":"/work","mcpServers":[]}}"#);
    let replay = acp.request("session/load", &known);
    assert_eq!(replay.kinds(), vec!["user_message_chunk", "agent_message_chunk"]);

    acp.request("session/resume", &known).result();

    let forked = acp.request("session/fork", &known);
    assert!(forked.result().str_at("sessionId").unwrap().starts_with("fork-"));
}

#[test]
fn slash_commands_and_cancellation() {
    let mut acp = World::new();
    acp.request("initialize", r#"{"protocolVersion":1,"clientCapabilities":{}}"#);
    let id = acp.create();

    let compacted = acp.prompt(&id, "/compact focus");
    assert_eq!(compacted.result().str_at("stopReason"), Some("end_turn"));
    assert!(compacted.texts().contains(&"compacted"));

    let mut told = Told::default();
    let waiting = acp.begin("session/prompt", &prompt_params(&id, "wait"), &mut told);
    assert!(waiting.is_some());
    acp.cancel(&id);
    assert!(acp.go_on(waiting, &mut told).is_none());
    assert_eq!(told.result().str_at("stopReason"), Some("cancelled"));
}

#[test]
fn pi_is_started_where_and_how_it_is_wanted() {
    let mut acp = World::new();
    acp.request(
        "session/new",
        r#"{"cwd":"/work","mcpServers":[],"_meta":{"systemPrompt":"test instructions"}}"#,
    );
    let (session, cwd, arguments) = &acp.started[0];
    assert_eq!(*session, 0);
    assert_eq!(cwd, "/work");
    assert_eq!(
        arguments.join(" "),
        "--mode rpc --no-themes --session-dir /state/pi-sessions --append-system-prompt be kind --append-system-prompt test instructions --offline"
    );
    assert_eq!(acp.adapter.pi_command(), "pi");
    assert_eq!(acp.adapter.session_dir(), "/state/pi-sessions");
    assert_eq!(acp.adapter.index_file(), "/state/sessions.json");
}

#[test]
fn a_relative_directory_is_refused() {
    let mut acp = World::new();
    let told = acp.request("session/new", r#"{"cwd":"work","mcpServers":[]}"#);
    assert_eq!(
        told.failure(),
        (ErrorKind::InternalError, "session cwd must be absolute: work")
    );
    assert!(acp.started.is_empty());
}

#[test]
fn a_pi_that_does_not_start_or_answer_is_told() {
    let mut acp = World::new();
    acp.start_fails = true;
    let told = acp.request("session/new", r#"{"cwd":"/w","mcpServers":[]}"#);
    assert_eq!(told.failure().1, "no such program");
    acp.start_fails = false;
    let mut pi = FakePi::new();
    pi.broken.push("get_available_models".to_owned());
    acp.next_pi = Some(pi);
    let told = acp.request("session/new", r#"{"cwd":"/w","mcpServers":[]}"#);
    assert_eq!(
        told.failure().1,
        "Pi RPC command failed: get_available_models is broken"
    );
    assert!(!acp.adapter.is_listed(0));
    assert!(!acp.adapter.is_listed(1));
}

#[test]
fn a_session_without_a_file_is_refused() {
    let mut acp = World::new();
    let mut pi = FakePi::new();
    pi.file = None;
    acp.next_pi = Some(pi);
    let told = acp.request("session/new", r#"{"cwd":"/w","mcpServers":[]}"#);
    assert_eq!(told.failure().1, "Pi did not return a persistent session file");
    assert!(acp.adapter.find("fake-session").is_none());
}

#[test]
fn a_session_without_an_id_gets_one() {
    let mut acp = World::new();
    let mut pi = FakePi::new();
    pi.session = String::new();
    acp.next_pi = Some(pi);
    let id = acp.create();
    assert_eq!(id.len(), 36);
    assert_eq!(id.matches('-').count(), 4);
    assert_eq!(acp.index.get(&id).unwrap().session_file, "/state/fake.jsonl");
    let other = {
        let mut pi = FakePi::new();
        pi.session = String::new();
        acp.next_pi = Some(pi);
        acp.create()
    };
    assert!(id != other);
}

#[test]
fn the_index_knows_where_and_when() {
    let mut acp = World::new();
    let id = acp.create();
    acp.prompt(&id, "/name Fine Work").result();
    let stored = acp.index.get(&id).unwrap();
    assert_eq!(stored.cwd, "/work");
    assert_eq!(stored.session_file, "/state/fake.jsonl");
    assert_eq!(stored.title.as_deref(), Some("Fine Work"));
    let time = stored.updated_at.unwrap();
    assert_eq!(time.as_bytes()[4], b'-');
    assert_eq!(time.as_bytes()[10], b'T');
    assert!(time.ends_with('Z'));
}

#[test]
fn an_index_that_cannot_be_written_fails_the_opening_but_not_a_turn() {
    let mut acp = World::new();
    acp.index_fails = true;
    let told = acp.request("session/new", r#"{"cwd":"/w","mcpServers":[]}"#);
    assert_eq!(told.failure(), (ErrorKind::InternalError, "disk full"));
    acp.index_fails = false;
    let id = acp.create();
    acp.index_fails = true;
    let told = acp.prompt(&id, "1");
    assert_eq!(told.result().str_at("stopReason"), Some("end_turn"));
    assert_eq!(acp.warnings, vec!["failed to update Pi ACP session index: disk full"]);
    let told = acp.prompt(&id, "/compact");
    assert_eq!(told.failure().1, "disk full");
}

#[test]
fn a_session_that_runs_is_not_started_again() {
    let mut acp = World::new();
    let id = acp.create();
    let known = format!(r#"{{"sessionId":"{id}","cwd":"/elsewhere","mcpServers":[]}}"#);
    acp.request("session/resume", &known).result();
    acp.request("session/load", &known).result();
    assert_eq!(acp.started.len(), 1);
}

#[test]
fn a_session_that_ended_is_started_again_from_its_file() {
    let mut acp = World::new();
    let id = acp.create();
    acp.adapter.finish(0);
    acp.prompt(&id, "1").result();
    assert_eq!(acp.started.len(), 2);
    let (session, cwd, arguments) = &acp.started[1];
    assert_eq!(*session, 1);
    assert_eq!(cwd, "/work");
    assert!(arguments.join(" ").contains("--session /state/fake.jsonl"));
    assert_eq!(acp.adapter.find(&id), Some(1));
    assert!(!acp.adapter.is_listed(0));
}

#[test]
fn an_unknown_session_is_refused() {
    let mut acp = World::new();
    let known = r#"{"sessionId":"nope","cwd":"/work","mcpServers":[]}"#;
    for method in ["session/load", "session/resume", "session/fork"] {
        assert_eq!(
            acp.request(method, known).failure(),
            (ErrorKind::InternalError, "unknown session: nope")
        );
    }
    assert_eq!(acp.prompt("nope", "1").failure().1, "unknown session: nope");
}

#[test]
fn closing_ends_the_process_once() {
    let mut acp = World::new();
    let id = acp.create();
    let params = format!(r#"{{"sessionId":"{id}"}}"#);
    assert_eq!(acp.request("session/close", &params).result().display(), "{}");
    assert_eq!(acp.killed, vec![0]);
    assert!(acp.adapter.find(&id).is_none());
    assert_eq!(acp.request("session/close", &params).result().display(), "{}");
    assert_eq!(acp.killed, vec![0]);
}

#[test]
fn a_fork_keeps_its_source() {
    let mut acp = World::new();
    let id = acp.create();
    let known = format!(r#"{{"sessionId":"{id}","cwd":"/other","mcpServers":[]}}"#);
    let forked = acp.request("session/fork", &known);
    assert_eq!(forked.result().str_at("sessionId"), Some("fork-1"));
    assert_eq!(acp.adapter.find(&id), Some(0));
    assert_eq!(acp.adapter.find("fork-1"), Some(1));
    assert_eq!(acp.started[1].1, "/other");
    let stored = acp.index.get("fork-1").unwrap();
    assert_eq!(stored.session_file, "/state/fork.jsonl");
    assert_eq!(stored.cwd, "/other");
}

#[test]
fn a_fork_of_a_session_that_does_not_run_leaves_it_so() {
    let mut acp = World::new();
    let id = acp.create();
    acp.request("session/close", &format!(r#"{{"sessionId":"{id}"}}"#));
    let known = format!(r#"{{"sessionId":"{id}","cwd":"/work","mcpServers":[]}}"#);
    acp.request("session/fork", &known).result();
    assert!(acp.adapter.find(&id).is_none());
    assert_eq!(acp.adapter.find("fork-1"), Some(1));
}

#[test]
fn an_unknown_option_is_refused() {
    let mut acp = World::new();
    let id = acp.create();
    let told = acp.request(
        "session/set_config_option",
        &format!(r#"{{"sessionId":"{id}","configId":"colour","value":"red"}}"#),
    );
    assert_eq!(told.failure(), (ErrorKind::InvalidParams, "unknown config option: colour"));
    let told = acp.request(
        "session/set_config_option",
        &format!(r#"{{"sessionId":"{id}","configId":"model","value":"no-provider"}}"#),
    );
    assert_eq!(told.failure(), (ErrorKind::InvalidParams, "unknown config option: model"));
}

#[test]
fn a_mode_is_told_even_where_the_state_is_not() {
    let mut acp = World::new();
    let id = acp.create();
    acp.pis.get_mut(&0).unwrap().broken.push("get_state".to_owned());
    let params = format!(r#"{{"sessionId":"{id}","modeId":"low"}}"#);
    let told = acp.request("session/set_mode", &params);
    assert_eq!(told.result().display(), "{}");
    assert_eq!(
        told.updates[0].display(),
        r#"{"sessionId":"fake-session","update":{"sessionUpdate":"current_mode_update","currentModeId":"low"}}"#
    );
}

#[test]
fn a_new_session_is_answered_once_where_its_commands_fail() {
    let mut acp = World::new();
    let mut pi = FakePi::new();
    pi.broken.push("get_commands".to_owned());
    acp.next_pi = Some(pi);
    let told = acp.request("session/new", r#"{"cwd":"/w","mcpServers":[]}"#);
    assert_eq!(told.replies.len(), 1);
    assert!(told.error.is_none());
    assert_eq!(
        acp.warnings,
        vec!["failed to list Pi commands: Pi RPC command failed: get_commands is broken"]
    );
}

#[test]
fn an_older_pi_ends_its_turn_when_it_is_idle() {
    let mut acp = World::new();
    let id = acp.create();
    let told = acp.prompt(&id, "legacy");
    assert_eq!(told.result().str_at("stopReason"), Some("end_turn"));
    assert_eq!(told.texts(), vec!["old"]);
}

#[test]
fn a_turn_goes_on_while_pi_retries() {
    let mut acp = World::new();
    let id = acp.create();
    let told = acp.prompt(&id, "retry");
    assert_eq!(told.texts(), vec!["again"]);
    assert_eq!(told.result().str_at("stopReason"), Some("end_turn"));
}

#[test]
fn free_input_of_an_extension_is_cancelled() {
    let mut acp = World::new();
    let id = acp.create();
    let told = acp.prompt(&id, "input");
    assert!(acp.asked.is_empty());
    assert_eq!(told.texts(), vec!["cancelled"]);
    let told = acp.prompt(&id, "notify");
    assert!(told.texts().is_empty());
    assert_eq!(told.result().str_at("stopReason"), Some("end_turn"));
}

#[test]
fn prompts_wait_for_their_turn_and_the_queue_is_bounded() {
    let mut acp = World::with_queue(2);
    let id = acp.create();
    let mut first = Told::default();
    let one = acp.begin("session/prompt", &prompt_params(&id, "wait"), &mut first);
    assert!(matches!(one, Some((_, Action::Listen(0)))));
    let mut second = Told::default();
    let two = acp.begin("session/prompt", &prompt_params(&id, "2"), &mut second);
    assert!(matches!(two, Some((_, Action::TakeTurn(0)))));
    assert_eq!(
        acp.prompt(&id, "3").failure(),
        (
            ErrorKind::InternalError,
            "Pi prompt queue limit (2) reached; raise --max-queued-prompts to allow more"
        )
    );
    assert!(!acp.adapter.turn_is_free(0));
    acp.cancel(&id);
    assert!(acp.go_on(one, &mut first).is_none());
    assert_eq!(first.result().str_at("stopReason"), Some("cancelled"));
    assert!(acp.adapter.turn_is_free(0));
    assert!(acp.go_on(two, &mut second).is_none());
    assert_eq!(second.result().str_at("stopReason"), Some("end_turn"));
    assert!(second.texts().contains(&"reply:2"));
    acp.prompt(&id, "4").result();
}

fn ended_by(event: Event) -> (World, Told) {
    let mut acp = World::new();
    let id = acp.create();
    let mut told = Told::default();
    let (stage, _) = acp.begin("session/prompt", &prompt_params(&id, "wait"), &mut told).unwrap();
    assert!(stage.is_timed());
    assert!(stage.waits_for(&event));
    let outcome = acp.adapter.advance(stage, event);
    assert!(acp.take(outcome, &mut told).is_none());
    (acp, told)
}

#[test]
fn a_turn_that_fails_says_why_and_gives_its_turn_back() {
    let exited = Event::Heard(PiEvent::Exited("Pi process exited".to_owned()));
    for (event, text) in [
        (exited, "Pi process exited"),
        (Event::Lagged(7), "Pi event buffer overflowed by 7 records"),
        (Event::StreamEnded, "Pi event stream closed"),
        (Event::TimedOut, "Pi turn exceeded 3600s"),
    ] {
        let (acp, told) = ended_by(event);
        assert_eq!(told.failure(), (ErrorKind::InternalError, text));
        assert!(acp.adapter.turn_is_free(0));
    }
}

#[test]
fn an_extension_is_told_where_the_turn_ends_before_the_client_answers() {
    let mut acp = World::new();
    let id = acp.create();
    let mut told = Told::default();
    let (stage, _) = acp.begin("session/prompt", &prompt_params(&id, "wait"), &mut told).unwrap();
    let question =
        parse(r#"{"type":"extension_ui_request","id":"q","method":"confirm","title":"Sure?"}"#);
    let asked = acp.adapter.advance(stage, Event::Heard(PiEvent::Message(question)));
    let stage = match asked.next {
        Next::Do(stage, Action::AskClient(_)) => stage,
        _ => panic!("the client is not asked"),
    };
    assert!(stage.listens());
    let outcome = acp.adapter.advance(stage, Event::TimedOut);
    assert_eq!(
        outcome.to_pi,
        Some((0, b"{\"type\":\"extension_ui_response\",\"id\":\"q\",\"cancelled\":true}\n".to_vec()))
    );
    assert!(matches!(outcome.next, Next::Failed(_)));
    assert!(acp.adapter.turn_is_free(0));
}

fn question(method: &str) -> PiEvent {
    PiEvent::Message(parse(&format!(
        r#"{{"type":"extension_ui_request","id":"q","method":"{method}","title":"Sure?"}}"#
    )))
}

const CANCELLED: &[u8] =
    b"{\"type\":\"extension_ui_response\",\"id\":\"q\",\"cancelled\":true}\n";

#[test]
fn the_client_is_asked_though_no_turn_listens() {
    let mut acp = World::new();
    let id = acp.create();
    let asked = acp.adapter.unheard(0, &question("confirm"));
    assert!(asked.to_pi.is_none());
    let (stage, params) = match asked.next {
        Next::Do(stage, Action::AskClient(params)) => (stage, params),
        _ => panic!("the client is not asked"),
    };
    assert_eq!(params.str_at("sessionId"), Some(id.as_str()));
    assert!(!stage.listens());
    assert!(!stage.is_timed());
    let reply = parse(r#"{"outcome":{"outcome":"selected","optionId":"choice-0"}}"#);
    let outcome = acp.adapter.advance(stage, Event::Replied(Ok(reply)));
    assert_eq!(
        outcome.to_pi,
        Some((
            0,
            b"{\"type\":\"extension_ui_response\",\"id\":\"q\",\"confirmed\":true}\n".to_vec()
        ))
    );
    assert!(outcome.messages.is_empty());
    assert!(matches!(outcome.next, Next::Done));
    let asked = acp.adapter.unheard(0, &question("confirm"));
    match asked.next {
        Next::Do(stage, _) => {
            let outcome = acp.adapter.give_up(stage, "gone".to_owned());
            assert_eq!(outcome.to_pi, Some((0, CANCELLED.to_vec())));
            assert!(matches!(outcome.next, Next::Done));
        }
        _ => panic!("the client is not asked"),
    }
}

#[test]
fn free_input_is_cancelled_though_no_turn_listens() {
    let mut acp = World::new();
    acp.create();
    assert_eq!(acp.adapter.unheard(0, &question("input")).to_pi, Some((0, CANCELLED.to_vec())));
    for event in [
        question("notify"),
        PiEvent::Message(parse(r#"{"type":"agent_end"}"#)),
        PiEvent::Exited("gone".to_owned()),
    ] {
        let outcome = acp.adapter.unheard(0, &event);
        assert!(outcome.to_pi.is_none());
        assert!(matches!(outcome.next, Next::Done));
    }
}

#[test]
fn a_question_of_a_session_that_the_client_does_not_know_is_cancelled() {
    let mut acp = World::new();
    let request = decode_request("session/new", Some(parse(r#"{"cwd":"/w","mcpServers":[]}"#)));
    let outcome = acp.adapter.begin(request.ok().unwrap());
    assert!(matches!(outcome.next, Next::Do(_, Action::Start { session: 0, .. })));
    assert_eq!(acp.adapter.unheard(0, &question("confirm")).to_pi, Some((0, CANCELLED.to_vec())));
}

#[test]
fn a_cancellation_that_fails_is_not_answered() {
    let mut acp = World::new();
    let id = acp.create();
    acp.pis.get_mut(&0).unwrap().broken.push("abort".to_owned());
    acp.cancel(&id);
    assert_eq!(
        acp.warnings,
        vec!["ACP notification failed: Pi RPC command failed: abort is broken"]
    );
    let outcome = acp.adapter.give_up(Stage::Aborting, "pipe closed".to_owned());
    assert_eq!(outcome.warning.as_deref(), Some("ACP notification failed: pipe closed"));
    assert!(matches!(outcome.next, Next::Done));
}

#[test]
fn a_request_that_is_given_up_gives_its_turn_back() {
    let mut acp = World::with_queue(1);
    let id = acp.create();
    let mut told = Told::default();
    let (stage, _) = acp.begin("session/prompt", &prompt_params(&id, "wait"), &mut told).unwrap();
    let outcome = acp.adapter.give_up(stage, "pipe closed".to_owned());
    assert!(acp.take(outcome, &mut told).is_none());
    assert_eq!(told.failure(), (ErrorKind::InternalError, "pipe closed"));
    assert!(acp.adapter.turn_is_free(0));
    acp.prompt(&id, "1").result();
}

#[test]
fn a_waiting_request_that_is_given_up_leaves_the_turn_alone() {
    let mut acp = World::with_queue(2);
    let id = acp.create();
    let mut told = Told::default();
    let one = acp.begin("session/prompt", &prompt_params(&id, "wait"), &mut told);
    let (stage, _) =
        acp.begin("session/prompt", &prompt_params(&id, "2"), &mut Told::default()).unwrap();
    acp.adapter.give_up(stage, "gone".to_owned());
    assert!(!acp.adapter.turn_is_free(0));
    acp.cancel(&id);
    assert!(acp.go_on(one, &mut told).is_none());
    assert!(acp.adapter.turn_is_free(0));
}

#[test]
fn sound_in_a_prompt_is_refused_and_the_turn_is_free_again() {
    let mut acp = World::new();
    let id = acp.create();
    let told = acp.request(
        "session/prompt",
        &format!(r#"{{"sessionId":"{id}","prompt":[{{"type":"audio","data":"AA==","mimeType":"audio/wav"}}]}}"#),
    );
    assert_eq!(told.failure().1, "Pi does not support audio prompt content");
    assert!(acp.adapter.turn_is_free(0));
}

#[test]
fn a_slash_command_with_an_image_is_a_prompt() {
    let mut acp = World::new();
    let id = acp.create();
    let told = acp.request(
        "session/prompt",
        &format!(
            r#"{{"sessionId":"{id}","prompt":[{{"type":"text","text":"/compact"}},{{"type":"image","data":"AA==","mimeType":"image/png"}}]}}"#
        ),
    );
    assert!(told.texts().contains(&"reply:/compact"));
}

#[test]
fn cancelling_an_unknown_session_does_nothing() {
    let mut acp = World::new();
    acp.cancel("nope");
}

#[test]
fn a_cancellation_does_not_outlive_its_turn() {
    let mut acp = World::new();
    let id = acp.create();
    acp.cancel(&id);
    let told = acp.prompt(&id, "1");
    assert_eq!(told.result().str_at("stopReason"), Some("end_turn"));
}

#[test]
fn shutting_down_ends_every_process_that_runs() {
    let mut acp = World::new();
    let id = acp.create();
    let known = format!(r#"{{"sessionId":"{id}","cwd":"/work","mcpServers":[]}}"#);
    acp.request("session/fork", &known).result();
    acp.adapter.finish(0);
    assert_eq!(acp.adapter.shut_down(), vec![1]);
    assert!(acp.adapter.find(&id).is_none());
    assert!(acp.adapter.find("fork-1").is_none());
    assert!(acp.adapter.shut_down().is_empty());
    assert_eq!(acp.adapter.session_count(), 2);
}

#[test]
fn a_forgotten_command_gets_no_response() {
    let mut acp = World::new();
    acp.create();
    let (id, _) = acp.adapter.command(0, parse(r#"{"type":"get_state"}"#)).unwrap();
    acp.adapter.forget(0, &id);
    let line = format!(r#"{{"type":"response","id":{},"success":true}}"#, quoted(&id));
    assert!(acp.feed(0, &[line]).is_empty());
    assert_eq!(acp.events[&0].len(), 1);
}

#[test]
fn messages_are_put_on_the_wire() {
    let mut peer = Peer::new();
    let update = message_record(&peer, &RequestId::Number(3), Message::Update(parse("{}"))).unwrap();
    assert_eq!(update, b"{\"jsonrpc\":\"2.0\",\"method\":\"session/update\",\"params\":{}}\n");
    let reply = message_record(&peer, &RequestId::Number(3), Message::Reply(parse("{}"))).unwrap();
    assert_eq!(reply, b"{\"jsonrpc\":\"2.0\",\"id\":3,\"result\":{}}\n");
    let (id, record) = ask_permission(&mut peer, parse("{}"));
    assert_eq!(id, FIRST_REQUEST_ID);
    assert_eq!(
        record.unwrap(),
        b"{\"jsonrpc\":\"2.0\",\"id\":1000000000,\"method\":\"session/request_permission\",\"params\":{}}\n"
    );
}
