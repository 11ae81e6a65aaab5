use agent_client_protocol_schema::v1::{
    AgentCapabilities, AuthMethod, AuthMethodTerminal, AvailableCommand as SchemaCommand,
    AvailableCommandsUpdate, ConfigOptionUpdate, CurrentModeUpdate, ForkSessionResponse,
    Implementation, InitializeResponse, ListSessionsResponse, LoadSessionResponse,
    NewSessionResponse, PromptCapabilities, PromptResponse, ResumeSessionResponse,
    SessionCapabilities, SessionCloseCapabilities, SessionConfigOption,
    SessionConfigOptionCategory, SessionConfigSelectGroup, SessionConfigSelectOption,
    SessionForkCapabilities, SessionInfo as SchemaInfo, SessionListCapabilities, SessionMode,
    SessionModeState, SessionNotification, SessionResumeCapabilities, SessionUpdate,
    SetSessionConfigOptionResponse, StopReason,
};
use agent_client_protocol_schema::ProtocolVersion;
use pi_acp::index::{Page, SessionInfo};
use pi_acp::json::Json;
use pi_acp::options::commands;
use pi_acp::replies::{
    configured, created, forked, initialized, listed, loaded, prompted, resumed, tell_commands,
    tell_mode, tell_options, tell_update, tell_updates, version,
};
use pi_acp::translate::text_update;

fn parse(text: &str) -> Json {
    Json::parse(text.as_bytes()).unwrap()
}

fn state() -> Json {
    parse(r#"{"model":{"provider":"openai","id":"gpt-5","reasoning":false},"thinkingLevel":"off"}"#)
}

fn models() -> Json {
    parse(
        r#"{"models":[{"provider":"openai","id":"gpt-5","name":"GPT-5","description":"d"},{"provider":"a","id":"b"}]}"#,
    )
}

fn schema_modes() -> SessionModeState {
    SessionModeState::new("off", vec![SessionMode::new("off", "Thinking: Off")])
}

fn schema_options() -> Vec<SessionConfigOption> {
    let groups = vec![
        SessionConfigSelectGroup::new("a", "a", vec![SessionConfigSelectOption::new("a/b", "b")]),
        SessionConfigSelectGroup::new(
            "openai",
            "openai",
            vec![SessionConfigSelectOption::new("openai/gpt-5", "GPT-5").description("d")],
        ),
    ];
    vec![
        SessionConfigOption::select("model", "Model", "openai/gpt-5", groups)
            .category(SessionConfigOptionCategory::Model),
        SessionConfigOption::select(
            "thought_level",
            "Thinking",
            "off",
            vec![SessionConfigSelectOption::new("off", "Off")],
        )
        .category(SessionConfigOptionCategory::ThoughtLevel),
    ]
}

#[test]
fn initialize_is_answered_as_the_schema_has_it() {
    let capabilities = AgentCapabilities::new()
        .load_session(true)
        .prompt_capabilities(PromptCapabilities::new().image(true).embedded_context(true))
        .session_capabilities(
            SessionCapabilities::new()
                .list(SessionListCapabilities::new())
                .resume(SessionResumeCapabilities::new())
                .close(SessionCloseCapabilities::new())
                .fork(SessionForkCapabilities::new()),
        );
    let info = Implementation::new("pi-acp-rust", version()).title("Pi ACP (Rust)");
    let bare = InitializeResponse::new(ProtocolVersion::V1)
        .agent_capabilities(capabilities)
        .agent_info(info);
    assert_eq!(initialized(1, false).to_value(), serde_json::to_value(&bare).unwrap());
    let login = bare.auth_methods(vec![AuthMethod::Terminal(
        AuthMethodTerminal::new("pi-terminal-login", "Log in with Pi")
            .args(vec!["--terminal-login".to_owned()]),
    )]);
    assert_eq!(initialized(1, true).to_value(), serde_json::to_value(&login).unwrap());
}

#[test]
fn initialize_keeps_the_version_of_the_client() {
    assert_eq!(initialized(65535, false).get("protocolVersion").unwrap().as_u64(), Some(65535));
}

#[test]
fn opened_sessions_are_answered_as_the_schema_has_it() {
    let new = NewSessionResponse::new("s").modes(schema_modes()).config_options(schema_options());
    assert_eq!(
        created("s", &state(), &models()).to_value(),
        serde_json::to_value(&new).unwrap()
    );
    let fork = ForkSessionResponse::new("s").modes(schema_modes()).config_options(schema_options());
    assert_eq!(
        forked("s", &state(), &models()).to_value(),
        serde_json::to_value(&fork).unwrap()
    );
    let load = LoadSessionResponse::new().modes(schema_modes()).config_options(schema_options());
    assert_eq!(loaded(&state(), &models()).to_value(), serde_json::to_value(&load).unwrap());
    let resume = ResumeSessionResponse::new().modes(schema_modes()).config_options(schema_options());
    assert_eq!(resumed(&state(), &models()).to_value(), serde_json::to_value(&resume).unwrap());
}

#[test]
fn options_are_answered_as_the_schema_has_it() {
    let response = SetSessionConfigOptionResponse::new(schema_options());
    assert_eq!(
        configured(&state(), &models()).to_value(),
        serde_json::to_value(&response).unwrap()
    );
}

#[test]
fn listings_are_answered_as_the_schema_has_it() {
    let page = Page {
        sessions: vec![
            SessionInfo {
                session_id: "a".to_owned(),
                cwd: "/w".to_owned(),
                title: Some("Title".to_owned()),
                updated_at: Some("2025-01-01T00:00:00Z".to_owned()),
            },
            SessionInfo {
                session_id: "b".to_owned(),
                cwd: "/x".to_owned(),
                title: None,
                updated_at: None,
            },
        ],
        next_cursor: Some("100".to_owned()),
    };
    let schema = ListSessionsResponse::new(vec![
        SchemaInfo::new("a", "/w")
            .title("Title".to_owned())
            .updated_at("2025-01-01T00:00:00Z".to_owned()),
        SchemaInfo::new("b", "/x"),
    ])
    .next_cursor("100".to_owned());
    assert_eq!(listed(page).to_value(), serde_json::to_value(&schema).unwrap());
    let empty = Page { sessions: Vec::new(), next_cursor: None };
    assert_eq!(
        listed(empty).to_value(),
        serde_json::to_value(ListSessionsResponse::new(Vec::new())).unwrap()
    );
}

#[test]
fn prompts_are_answered_as_the_schema_has_it() {
    assert_eq!(
        prompted(false).to_value(),
        serde_json::to_value(PromptResponse::new(StopReason::EndTurn)).unwrap()
    );
    assert_eq!(
        prompted(true).to_value(),
        serde_json::to_value(PromptResponse::new(StopReason::Cancelled)).unwrap()
    );
}

#[test]
fn updates_are_told_as_the_schema_has_it() {
    let own = tell_commands("s", commands(&parse(r#"{"commands":[{"name":"x"}]}"#)));
    let list: Vec<SchemaCommand> = commands(&parse(r#"{"commands":[{"name":"x"}]}"#))
        .iter()
        .map(|c| SchemaCommand::new(c.name.clone(), c.description.clone()))
        .collect();
    let schema = SessionNotification::new(
        "s",
        SessionUpdate::AvailableCommandsUpdate(AvailableCommandsUpdate::new(list)),
    );
    assert_eq!(own.to_value(), serde_json::to_value(&schema).unwrap());
    let schema = SessionNotification::new(
        "s",
        SessionUpdate::CurrentModeUpdate(CurrentModeUpdate::new("high")),
    );
    assert_eq!(tell_mode("s", "high").to_value(), serde_json::to_value(&schema).unwrap());
    let schema = SessionNotification::new(
        "s",
        SessionUpdate::ConfigOptionUpdate(ConfigOptionUpdate::new(schema_options())),
    );
    assert_eq!(
        tell_options("s", &state(), &models()).to_value(),
        serde_json::to_value(&schema).unwrap()
    );
}

#[test]
fn updates_of_the_schema_are_told_for_their_session() {
    let update = text_update("agent_message_chunk", "hi").unwrap();
    let schema = SessionNotification::new("s", update.clone());
    assert_eq!(
        tell_update("s", update.clone()).unwrap().to_value(),
        serde_json::to_value(&schema).unwrap()
    );
    let (params, error) = tell_updates("s", vec![update.clone(), update]);
    assert_eq!(params.len(), 2);
    assert!(error.is_none());
    assert_eq!(params[1].str_at("sessionId"), Some("s"));
}

const OPTIONS: &str = r#"[{"id":"model","name":"Model","category":"model","type":"select","currentValue":"openai/gpt-5","options":[{"group":"a","name":"a","options":[{"value":"a/b","name":"b"}]},{"group":"openai","name":"openai","options":[{"value":"openai/gpt-5","name":"GPT-5","description":"d"}]}]},{"id":"thought_level","name":"Thinking","category":"thought_level","type":"select","currentValue":"off","options":[{"value":"off","name":"Off"}]}]"#;

const MODES: &str =
    r#"{"currentModeId":"off","availableModes":[{"id":"off","name":"Thinking: Off"}]}"#;

#[test]
fn members_stand_in_their_order() {
    assert_eq!(
        initialized(1, true).display(),
        r#"{"protocolVersion":1,"agentCapabilities":{"loadSession":true,"promptCapabilities":{"image":true,"audio":false,"embeddedContext":true},"mcpCapabilities":{"http":false,"sse":false},"sessionCapabilities":{"list":{},"fork":{},"resume":{},"close":{}},"auth":{}},"authMethods":[{"type":"terminal","id":"pi-terminal-login","name":"Log in with Pi","args":["--terminal-login"]}],"agentInfo":{"name":"pi-acp-rust","title":"Pi ACP (Rust)","version":"0.1.0"}}"#
    );
    assert_eq!(
        created("s", &state(), &models()).display(),
        format!(r#"{{"sessionId":"s","modes":{MODES},"configOptions":{OPTIONS}}}"#)
    );
    assert_eq!(
        forked("s", &state(), &models()).display(),
        created("s", &state(), &models()).display()
    );
    assert_eq!(
        loaded(&state(), &models()).display(),
        format!(r#"{{"modes":{MODES},"configOptions":{OPTIONS}}}"#)
    );
    assert_eq!(
        resumed(&state(), &models()).display(),
        loaded(&state(), &models()).display()
    );
    assert_eq!(
        configured(&state(), &models()).display(),
        format!(r#"{{"configOptions":{OPTIONS}}}"#)
    );
    assert_eq!(
        tell_options("s", &state(), &models()).display(),
        format!(
            r#"{{"sessionId":"s","update":{{"sessionUpdate":"config_option_update","configOptions":{OPTIONS}}}}}"#
        )
    );
    assert_eq!(
        tell_mode("s", "high").display(),
        r#"{"sessionId":"s","update":{"sessionUpdate":"current_mode_update","currentModeId":"high"}}"#
    );
    let own = tell_commands("s", commands(&parse("{}")));
    assert!(own.display().starts_with(
        r#"{"sessionId":"s","update":{"sessionUpdate":"available_commands_update","availableCommands":[{"name":"compact","description":"#
    ));
    assert_eq!(prompted(false).display(), r#"{"stopReason":"end_turn"}"#);
    assert_eq!(prompted(true).display(), r#"{"stopReason":"cancelled"}"#);
    let page = Page {
        sessions: vec![SessionInfo {
            session_id: "a".to_owned(),
            cwd: "/w".to_owned(),
            title: Some("T".to_owned()),
            updated_at: Some("U".to_owned()),
        }],
        next_cursor: Some("100".to_owned()),
    };
    assert_eq!(
        listed(page).display(),
        r#"{"sessions":[{"sessionId":"a","cwd":"/w","title":"T","updatedAt":"U"}],"nextCursor":"100"}"#
    );
}
