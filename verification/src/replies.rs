//! What the client is answered and told.
//!
//! The answers are values of `agent_client_protocol_schema`, which `serde_json` serialises. Their
//! JSON is stated here.

use agent_client_protocol_schema::v1::{
    AgentCapabilities, AuthMethod, AuthMethodTerminal, AvailableCommand as SchemaCommand,
    AvailableCommandsUpdate, ConfigOptionUpdate, CurrentModeUpdate, ForkSessionResponse,
    Implementation, InitializeResponse, ListSessionsResponse, LoadSessionResponse,
    NewSessionResponse, PromptCapabilities, PromptResponse, ResumeSessionResponse,
    SessionCapabilities, SessionCloseCapabilities, SessionConfigOption,
    SessionConfigOptionCategory, SessionConfigSelectGroup, SessionConfigSelectOption,
    SessionForkCapabilities, SessionInfo as SchemaInfo, SessionListCapabilities, SessionMode,
    SessionModeState, SessionNotification, SessionResumeCapabilities, SessionUpdate,
    SetSessionConfigOptionResponse, StopReason,
};
use agent_client_protocol_schema::ProtocolVersion;
use serde_json::Value;
use vstd::prelude::*;

use crate::acp::value_or_text;
use crate::index::{InfoView, Page, PageView};
use crate::json::{
    error_message, is_written, items_view, message_of, number_from, taken, value_view, Json,
    JsonView,
};
use crate::options::{
    choice_views, command_views, config_options, group_views, mode_state, modes_of, option_views,
    options_of, AvailableCommand, Category, Choice, ChoiceView, Choices, ChoicesView, CommandView,
    ConfigOption, Group, GroupView, ModeState, ModeStateView, ModeView, OptionView,
};
use crate::text::opt_string;

verus! {

/// `value` with a text under a key, where there is one.
pub open spec fn with_text(value: JsonView, key: Seq<char>, text: Option<Seq<char>>) -> JsonView {
    match text {
        Some(text) => value.with(key, JsonView::String(text)),
        None => value,
    }
}

/// A choice as the client wants it.
pub open spec fn choice_json(choice: ChoiceView) -> JsonView {
    with_text(
        JsonView::object().with("value"@, JsonView::String(choice.value)).with(
            "name"@,
            JsonView::String(choice.name),
        ),
        "description"@,
        choice.description,
    )
}

/// A group of choices as the client wants it. Its name is its id.
pub open spec fn group_json(group: GroupView) -> JsonView {
    JsonView::object().with("group"@, JsonView::String(group.name)).with(
        "name"@,
        JsonView::String(group.name),
    ).with("options"@, JsonView::Array(group.choices.map_values(|c: ChoiceView| choice_json(c))))
}

/// Choices as the client wants them.
pub open spec fn choices_json(choices: ChoicesView) -> JsonView {
    match choices {
        ChoicesView::Flat(list) => JsonView::Array(
            list.map_values(|c: ChoiceView| choice_json(c)),
        ),
        ChoicesView::Grouped(list) => JsonView::Array(
            list.map_values(|g: GroupView| group_json(g)),
        ),
    }
}

/// What an option is about, as the client wants it.
pub open spec fn category_text(category: Category) -> Seq<char> {
    match category {
        Category::Model => "model"@,
        Category::ThoughtLevel => "thought_level"@,
    }
}

/// An option as the client wants it.
pub open spec fn option_json(option: OptionView) -> JsonView {
    JsonView::object().with("id"@, JsonView::String(option.id)).with(
        "name"@,
        JsonView::String(option.name),
    ).with("category"@, JsonView::String(category_text(option.category))).with(
        "type"@,
        JsonView::String("select"@),
    ).with("currentValue"@, JsonView::String(option.current)).with(
        "options"@,
        choices_json(option.choices),
    )
}

/// Options as the client wants them.
pub open spec fn options_json(options: Seq<OptionView>) -> JsonView {
    JsonView::Array(options.map_values(|o: OptionView| option_json(o)))
}

/// A mode as the client wants it.
pub open spec fn mode_json(mode: ModeView) -> JsonView {
    JsonView::object().with("id"@, JsonView::String(mode.id)).with(
        "name"@,
        JsonView::String(mode.name),
    )
}

/// Modes as the client wants them.
pub open spec fn modes_json(modes: ModeStateView) -> JsonView {
    JsonView::object().with("currentModeId"@, JsonView::String(modes.current)).with(
        "availableModes"@,
        JsonView::Array(modes.modes.map_values(|m: ModeView| mode_json(m))),
    )
}

/// A listed session as the client wants it.
pub open spec fn info_json(info: InfoView) -> JsonView {
    with_text(
        with_text(
            JsonView::object().with("sessionId"@, JsonView::String(info.session_id)).with(
                "cwd"@,
                JsonView::String(info.cwd),
            ),
            "title"@,
            info.title,
        ),
        "updatedAt"@,
        info.updated_at,
    )
}

/// A command as the client wants it.
pub open spec fn command_json(command: CommandView) -> JsonView {
    JsonView::object().with("name"@, JsonView::String(command.name)).with(
        "description"@,
        JsonView::String(command.description),
    )
}

/// The modes of a session as the schema has them.
#[verifier::external_type_specification]
#[verifier::external_body]
pub struct ExModeState(SessionModeState);

/// An option of a session as the schema has it.
#[verifier::external_type_specification]
#[verifier::external_body]
pub struct ExConfigOption(SessionConfigOption);

/// What `serde_json::to_value` gives for the modes of a session.
pub uninterp spec fn modes_form(modes: SessionModeState) -> JsonView;

/// What `serde_json::to_value` gives for an option of a session.
pub uninterp spec fn option_form(option: SessionConfigOption) -> JsonView;

/// What `serde_json::to_value` gives for options of a session, one by one.
pub open spec fn option_forms(options: Seq<SessionConfigOption>) -> Seq<JsonView> {
    options.map_values(|o: SessionConfigOption| option_form(o))
}

/// `SessionModeState::new` with a `SessionMode::new` for each mode. Its JSON form has the current
/// mode and the modes, each with its id and its name.
#[verifier::external_body]
fn schema_modes(modes: ModeState) -> (r: SessionModeState)
    ensures
        modes_form(r) == modes_json(modes@),
{
    let list = modes.modes.into_iter().map(|mode| SessionMode::new(mode.id, mode.name));
    SessionModeState::new(modes.current, list.collect::<Vec<_>>())
}

/// `SessionConfigOption::select` with a `SessionConfigSelectOption::new` for each choice. Its JSON
/// form has the id, the name, the category, the type `select`, the current value and the choices,
/// each with its value, its name and the description that it may have.
#[verifier::external_body]
fn flat_option(
    id: String,
    name: String,
    current: String,
    choices: Vec<Choice>,
    category: Category,
) -> (r: SessionConfigOption)
    ensures
        option_form(r) == option_json(
            OptionView {
                id: id@,
                name: name@,
                current: current@,
                choices: ChoicesView::Flat(choice_views(choices@)),
                category,
            },
        ),
{
    let list = choices.into_iter().map(|choice| {
        SessionConfigSelectOption::new(choice.value, choice.name).description(choice.description)
    });
    let option = SessionConfigOption::select(id, name, current, list.collect::<Vec<_>>());
    option.category(match category {
        Category::Model => SessionConfigOptionCategory::Model,
        Category::ThoughtLevel => SessionConfigOptionCategory::ThoughtLevel,
    })
}

/// `SessionConfigOption::select` with a `SessionConfigSelectGroup::new` for each group, and in it a
/// `SessionConfigSelectOption::new` for each choice. Its JSON form is that of an option without
/// groups, but for the groups in place of the choices, each with its id, its name and its choices.
#[verifier::external_body]
fn grouped_option(
    id: String,
    name: String,
    current: String,
    groups: Vec<Group>,
    category: Category,
) -> (r: SessionConfigOption)
    ensures
        option_form(r) == option_json(
            OptionView {
                id: id@,
                name: name@,
                current: current@,
                choices: ChoicesView::Grouped(group_views(groups@)),
                category,
            },
        ),
{
    let groups = groups.into_iter().map(|group| {
        let list = group.choices.into_iter().map(|choice| {
            SessionConfigSelectOption::new(choice.value, choice.name)
                .description(choice.description)
        });
        SessionConfigSelectGroup::new(group.name.clone(), group.name, list.collect::<Vec<_>>())
    });
    let option = SessionConfigOption::select(id, name, current, groups.collect::<Vec<_>>());
    option.category(match category {
        Category::Model => SessionConfigOptionCategory::Model,
        Category::ThoughtLevel => SessionConfigOptionCategory::ThoughtLevel,
    })
}

/// The options of a session as the schema has them.
fn schema_options(list: Vec<ConfigOption>) -> (r: Vec<SessionConfigOption>)
    ensures
        option_forms(r@) == option_views(list@).map_values(|o: OptionView| option_json(o)),
{
    let ghost all = list@;
    let ghost wanted = option_views(all).map_values(|o: OptionView| option_json(o));
    let mut options: Vec<SessionConfigOption> = Vec::new();
    for option in iter: list
        invariant
            iter.seq() == all,
            wanted == option_views(all).map_values(|o: OptionView| option_json(o)),
            option_forms(options@) == wanted.take(iter.index()),
    {
        let ghost n = iter.index();
        let ghost before = options@;
        assert(wanted[n] == option_json(option@));
        options.push(
            match option.choices {
                Choices::Flat(choices) => flat_option(
                    option.id,
                    option.name,
                    option.current,
                    choices,
                    option.category,
                ),
                Choices::Grouped(groups) => grouped_option(
                    option.id,
                    option.name,
                    option.current,
                    groups,
                    option.category,
                ),
            },
        );
        assert(option_forms(options@) =~= option_forms(before).push(wanted[n]));
        assert(wanted.take(n + 1) =~= wanted.take(n).push(wanted[n]));
    }
    assert(wanted.take(all.len() as int) =~= wanted);
    options
}

/// The version of this adapter.
pub fn version() -> (r: &'static str)
    ensures
        r@ == "0.1.0"@,
{
    "0.1.0"
}

/// What an agent can do: list, fork, resume and close sessions, and, where it is said so, load
/// them and take images and resources in a prompt.
pub open spec fn capabilities_json(load: bool, image: bool, embedded_context: bool) -> JsonView {
    let empty = JsonView::object();
    empty.with("loadSession"@, JsonView::Bool(load)).with(
        "promptCapabilities"@,
        empty.with("image"@, JsonView::Bool(image)).with("audio"@, JsonView::Bool(false)).with(
            "embeddedContext"@,
            JsonView::Bool(embedded_context),
        ),
    ).with(
        "mcpCapabilities"@,
        empty.with("http"@, JsonView::Bool(false)).with("sse"@, JsonView::Bool(false)),
    ).with(
        "sessionCapabilities"@,
        empty.with("list"@, empty).with("fork"@, empty).with("resume"@, empty).with(
            "close"@,
            empty,
        ),
    ).with("auth"@, empty)
}

/// A login on a terminal, with one argument for the program.
pub open spec fn login_json(id: Seq<char>, name: Seq<char>, argument: Seq<char>) -> JsonView {
    JsonView::object().with("type"@, JsonView::String("terminal"@)).with(
        "id"@,
        JsonView::String(id),
    ).with("name"@, JsonView::String(name)).with(
        "args"@,
        JsonView::Array(seq![JsonView::String(argument)]),
    )
}

/// What an agent is.
pub open spec fn info_of_agent(
    name: Seq<char>,
    title: Seq<char>,
    version: Seq<char>,
) -> JsonView {
    JsonView::object().with("name"@, JsonView::String(name)).with(
        "title"@,
        JsonView::String(title),
    ).with("version"@, JsonView::String(version))
}

/// An answer to `initialize`.
pub open spec fn initialize_json(
    protocol_version: u16,
    capabilities: JsonView,
    methods: Seq<JsonView>,
    info: JsonView,
) -> JsonView {
    JsonView::object().with(
        "protocolVersion"@,
        JsonView::Number(number_from(protocol_version as i64)),
    ).with("agentCapabilities"@, capabilities).with(
        "authMethods"@,
        JsonView::Array(methods),
    ).with("agentInfo"@, info)
}

/// How the user can log in: by running the adapter with an argument, where the client can run it
/// on a terminal.
pub open spec fn login_methods(terminal: bool) -> Seq<JsonView> {
    if terminal {
        seq![login_json("pi-terminal-login"@, "Log in with Pi"@, "--terminal-login"@)]
    } else {
        Seq::empty()
    }
}

/// The answer to `initialize`: the client's protocol version, what the adapter can do, how the
/// user can log in, and what the adapter is. It can load sessions and take images and resources.
pub open spec fn initialized_json(protocol_version: u16, terminal: bool) -> JsonView {
    initialize_json(
        protocol_version,
        capabilities_json(true, true, true),
        login_methods(terminal),
        info_of_agent("pi-acp-rust"@, "Pi ACP (Rust)"@, "0.1.0"@),
    )
}

/// How the user can log in: by running the adapter with an argument.
pub struct Login {
    pub id: String,
    pub name: String,
    pub argument: String,
}

/// What the adapter is.
pub struct Identity {
    pub name: String,
    pub title: String,
    pub version: String,
}

/// `serde_json::to_value` on an `InitializeResponse` with a protocol version, the capabilities of
/// an agent that lists, forks, resumes and closes sessions, and loads them and takes images and
/// resources where it is said so, the terminal login that there may be, and what the agent is.
/// What is not set has its default: no audio, no MCP, and nothing under `auth`.
#[verifier::external_body]
fn initialize_value(
    protocol_version: u16,
    load: bool,
    image: bool,
    embedded_context: bool,
    login: Option<Login>,
    identity: Identity,
) -> (r: Result<Value, serde_json::Error>)
    ensures
        is_written(
            r,
            initialize_json(
                protocol_version,
                capabilities_json(load, image, embedded_context),
                match login {
                    Some(login) => seq![login_json(login.id@, login.name@, login.argument@)],
                    None => Seq::empty(),
                },
                info_of_agent(identity.name@, identity.title@, identity.version@),
            ),
        ),
{
    let sessions = SessionCapabilities::new()
        .list(SessionListCapabilities::new())
        .resume(SessionResumeCapabilities::new())
        .close(SessionCloseCapabilities::new())
        .fork(SessionForkCapabilities::new());
    let prompts = PromptCapabilities::new().image(image).embedded_context(embedded_context);
    let agent = AgentCapabilities::new().load_session(load).prompt_capabilities(prompts);
    let methods = login.into_iter().map(|login| AuthMethod::Terminal(
        AuthMethodTerminal::new(login.id, login.name).args(vec![login.argument])
    ));
    let info = Implementation::new(identity.name, identity.version).title(identity.title);
    let response = InitializeResponse::new(ProtocolVersion::from(protocol_version));
    serde_json::to_value(response.agent_capabilities(agent.session_capabilities(sessions))
        .auth_methods(methods.collect()).agent_info(info))
}

/// The answer to `initialize`.
pub fn initialized(protocol_version: u16, terminal: bool) -> (r: Json)
    ensures
        r@ == initialized_json(protocol_version, terminal),
{
    let login: Option<Login> = if terminal {
        Some(
            Login {
                id: "pi-terminal-login".to_owned(),
                name: "Log in with Pi".to_owned(),
                argument: "--terminal-login".to_owned(),
            },
        )
    } else {
        None
    };
    let identity = Identity {
        name: "pi-acp-rust".to_owned(),
        title: "Pi ACP (Rust)".to_owned(),
        version: version().to_owned(),
    };
    taken(initialize_value(protocol_version, true, true, true, login, identity))
}

/// `start` with the modes and the options of a session.
pub open spec fn described(start: JsonView, state: JsonView, models: JsonView) -> JsonView {
    start.with("modes"@, modes_json(modes_of(state))).with(
        "configOptions"@,
        options_json(options_of(state, models)),
    )
}

/// The answer to a request that opens a known session.
pub open spec fn opened_json(state: JsonView, models: JsonView) -> JsonView {
    described(JsonView::object(), state, models)
}

/// The answer to a request that makes a session.
pub open spec fn created_json(id: Seq<char>, state: JsonView, models: JsonView) -> JsonView {
    described(id_json(id), state, models)
}

/// `start` with modes and options as the schema has them.
pub open spec fn with_forms(
    start: JsonView,
    modes: SessionModeState,
    options: Seq<SessionConfigOption>,
) -> JsonView {
    start.with("modes"@, modes_form(modes)).with(
        "configOptions"@,
        JsonView::Array(option_forms(options)),
    )
}

/// An object with the id of a session.
pub open spec fn id_json(id: Seq<char>) -> JsonView {
    JsonView::object().with("sessionId"@, JsonView::String(id))
}

/// `serde_json::to_value` on a `NewSessionResponse`: the id, the modes and the options.
#[verifier::external_body]
fn new_value(id: &str, modes: SessionModeState, options: Vec<SessionConfigOption>) -> (r: Result<
    Value,
    serde_json::Error,
>)
    ensures
        is_written(r, with_forms(id_json(id@), modes, options@)),
{
    let response = NewSessionResponse::new(id.to_owned()).modes(modes).config_options(options);
    serde_json::to_value(response)
}

/// `serde_json::to_value` on a `ForkSessionResponse`: the id, the modes and the options.
#[verifier::external_body]
fn fork_value(id: &str, modes: SessionModeState, options: Vec<SessionConfigOption>) -> (r: Result<
    Value,
    serde_json::Error,
>)
    ensures
        is_written(r, with_forms(id_json(id@), modes, options@)),
{
    let response = ForkSessionResponse::new(id.to_owned()).modes(modes).config_options(options);
    serde_json::to_value(response)
}

/// `serde_json::to_value` on a `LoadSessionResponse`: the modes and the options.
#[verifier::external_body]
fn load_value(modes: SessionModeState, options: Vec<SessionConfigOption>) -> (r: Result<
    Value,
    serde_json::Error,
>)
    ensures
        is_written(r, with_forms(JsonView::object(), modes, options@)),
{
    serde_json::to_value(LoadSessionResponse::new().modes(modes).config_options(options))
}

/// `serde_json::to_value` on a `ResumeSessionResponse`: the modes and the options.
#[verifier::external_body]
fn resume_value(modes: SessionModeState, options: Vec<SessionConfigOption>) -> (r: Result<
    Value,
    serde_json::Error,
>)
    ensures
        is_written(r, with_forms(JsonView::object(), modes, options@)),
{
    serde_json::to_value(ResumeSessionResponse::new().modes(modes).config_options(options))
}

/// The answer to a request that makes a session.
pub fn created(id: &str, state: &Json, models: &Json) -> (r: Json)
    ensures
        r@ == created_json(id@, state@, models@),
{
    let options: Vec<SessionConfigOption> = schema_options(config_options(state, models));
    taken(new_value(id, schema_modes(mode_state(state)), options))
}

/// The answer to a request that forks a session.
pub fn forked(id: &str, state: &Json, models: &Json) -> (r: Json)
    ensures
        r@ == created_json(id@, state@, models@),
{
    let options: Vec<SessionConfigOption> = schema_options(config_options(state, models));
    taken(fork_value(id, schema_modes(mode_state(state)), options))
}

/// The answer to a request that loads a session.
pub fn loaded(state: &Json, models: &Json) -> (r: Json)
    ensures
        r@ == opened_json(state@, models@),
{
    let options: Vec<SessionConfigOption> = schema_options(config_options(state, models));
    taken(load_value(schema_modes(mode_state(state)), options))
}

/// The answer to a request that resumes a session.
pub fn resumed(state: &Json, models: &Json) -> (r: Json)
    ensures
        r@ == opened_json(state@, models@),
{
    let options: Vec<SessionConfigOption> = schema_options(config_options(state, models));
    taken(resume_value(schema_modes(mode_state(state)), options))
}

/// The answer to a request that sets an option.
pub open spec fn configured_json(state: JsonView, models: JsonView) -> JsonView {
    JsonView::object().with("configOptions"@, options_json(options_of(state, models)))
}

/// `serde_json::to_value` on a `SetSessionConfigOptionResponse`: the options.
#[verifier::external_body]
fn configured_value(options: Vec<SessionConfigOption>) -> (r: Result<Value, serde_json::Error>)
    ensures
        is_written(
            r,
            JsonView::object().with("configOptions"@, JsonView::Array(option_forms(options@))),
        ),
{
    serde_json::to_value(SetSessionConfigOptionResponse::new(options))
}

/// The answer to a request that sets an option.
pub fn configured(state: &Json, models: &Json) -> (r: Json)
    ensures
        r@ == configured_json(state@, models@),
{
    let options: Vec<SessionConfigOption> = schema_options(config_options(state, models));
    taken(configured_value(options))
}

/// The answer to a request that lists sessions.
pub open spec fn listed_json(page: PageView) -> JsonView {
    with_text(
        JsonView::object().with(
            "sessions"@,
            JsonView::Array(page.sessions.map_values(|s: InfoView| info_json(s))),
        ),
        "nextCursor"@,
        page.next_cursor,
    )
}

/// `serde_json::to_value` on a `ListSessionsResponse` with a `SessionInfo::new` for each session:
/// the sessions, each with its id, its directory and the title and the time that it may have, and
/// the cursor that there may be.
#[verifier::external_body]
fn listed_value(page: Page) -> (r: Result<Value, serde_json::Error>)
    ensures
        is_written(r, listed_json(page@)),
{
    let list = page.sessions.into_iter().map(|session| {
        SchemaInfo::new(session.session_id, session.cwd)
            .title(session.title)
            .updated_at(session.updated_at)
    });
    let response = ListSessionsResponse::new(list.collect()).next_cursor(page.next_cursor);
    serde_json::to_value(response)
}

/// The answer to a request that lists sessions.
pub fn listed(page: Page) -> (r: Json)
    ensures
        r@ == listed_json(page@),
{
    taken(listed_value(page))
}

/// The answer to a prompt: whether it came to its end or was cancelled.
pub open spec fn prompted_json(cancelled: bool) -> JsonView {
    JsonView::object().with(
        "stopReason"@,
        JsonView::String(
            if cancelled {
                "cancelled"@
            } else {
                "end_turn"@
            },
        ),
    )
}

/// Why a turn is over.
pub enum Stop {
    Ended,
    Cancelled,
}

/// `serde_json::to_value` on a `PromptResponse`: why the turn is over.
#[verifier::external_body]
fn prompted_value(stop: Stop) -> (r: Result<Value, serde_json::Error>)
    ensures
        is_written(r, prompted_json(stop is Cancelled)),
{
    serde_json::to_value(PromptResponse::new(match stop {
        Stop::Ended => StopReason::EndTurn,
        Stop::Cancelled => StopReason::Cancelled,
    }))
}

/// The answer to a prompt.
pub fn prompted(cancelled: bool) -> (r: Json)
    ensures
        r@ == prompted_json(cancelled),
{
    let stop: Stop = if cancelled {
        Stop::Cancelled
    } else {
        Stop::Ended
    };
    taken(prompted_value(stop))
}

/// What the client is told of a session.
pub open spec fn told(id: Seq<char>, update: JsonView) -> JsonView {
    JsonView::object().with("sessionId"@, JsonView::String(id)).with("update"@, update)
}

/// An update of a kind, with a value under a key.
pub open spec fn update_json(kind: Seq<char>, key: Seq<char>, value: JsonView) -> JsonView {
    JsonView::object().with("sessionUpdate"@, JsonView::String(kind)).with(key, value)
}

/// What the client is told of the commands of a session.
pub open spec fn commands_told(id: Seq<char>, commands: Seq<CommandView>) -> JsonView {
    told(
        id,
        update_json(
            "available_commands_update"@,
            "availableCommands"@,
            JsonView::Array(commands.map_values(|c: CommandView| command_json(c))),
        ),
    )
}

/// What the client is told of the mode of a session.
pub open spec fn mode_told(id: Seq<char>, mode: Seq<char>) -> JsonView {
    told(id, update_json("current_mode_update"@, "currentModeId"@, JsonView::String(mode)))
}

/// What the client is told of the options of a session.
pub open spec fn options_told(id: Seq<char>, state: JsonView, models: JsonView) -> JsonView {
    told(
        id,
        update_json(
            "config_option_update"@,
            "configOptions"@,
            options_json(options_of(state, models)),
        ),
    )
}

/// `serde_json::to_value` on a `SessionNotification` of an `AvailableCommandsUpdate` with an
/// `AvailableCommand::new` for each command: the session, the kind of the update, and the commands,
/// each with its name and its description.
#[verifier::external_body]
fn commands_value(id: &str, commands: Vec<AvailableCommand>) -> (r: Result<
    Value,
    serde_json::Error,
>)
    ensures
        is_written(r, commands_told(id@, command_views(commands@))),
{
    let list = commands.into_iter().map(|c| SchemaCommand::new(c.name, c.description));
    let update = AvailableCommandsUpdate::new(list.collect());
    serde_json::to_value(SessionNotification::new(
        id.to_owned(),
        SessionUpdate::AvailableCommandsUpdate(update),
    ))
}

/// `serde_json::to_value` on a `SessionNotification` of a `CurrentModeUpdate`: the session, the
/// kind of the update, and the mode.
#[verifier::external_body]
fn mode_value(id: &str, mode: &str) -> (r: Result<Value, serde_json::Error>)
    ensures
        is_written(r, mode_told(id@, mode@)),
{
    serde_json::to_value(SessionNotification::new(
        id.to_owned(),
        SessionUpdate::CurrentModeUpdate(CurrentModeUpdate::new(mode.to_owned())),
    ))
}

/// `serde_json::to_value` on a `SessionNotification` of a `ConfigOptionUpdate`: the session, the
/// kind of the update, and the options.
#[verifier::external_body]
fn options_value(id: &str, options: Vec<SessionConfigOption>) -> (r: Result<
    Value,
    serde_json::Error,
>)
    ensures
        is_written(
            r,
            told(
                id@,
                update_json(
                    "config_option_update"@,
                    "configOptions"@,
                    JsonView::Array(option_forms(options@)),
                ),
            ),
        ),
{
    serde_json::to_value(SessionNotification::new(
        id.to_owned(),
        SessionUpdate::ConfigOptionUpdate(ConfigOptionUpdate::new(options)),
    ))
}

/// What the client is told of the commands of a session.
pub fn tell_commands(id: &str, commands: Vec<AvailableCommand>) -> (r: Json)
    ensures
        r@ == commands_told(id@, command_views(commands@)),
{
    taken(commands_value(id, commands))
}

/// What the client is told of the mode of a session.
pub fn tell_mode(id: &str, mode: &str) -> (r: Json)
    ensures
        r@ == mode_told(id@, mode@),
{
    taken(mode_value(id, mode))
}

/// What the client is told of the options of a session.
pub fn tell_options(id: &str, state: &Json, models: &Json) -> (r: Json)
    ensures
        r@ == options_told(id@, state@, models@),
{
    let options: Vec<SessionConfigOption> = schema_options(config_options(state, models));
    taken(options_value(id, options))
}

/// What the client is told of an update, or the message of the error for which it cannot be.
pub uninterp spec fn notification_json(id: Seq<char>, update: SessionUpdate) -> Result<
    JsonView,
    Seq<char>,
>;

/// Calls `serde_json::to_value` on a [`SessionNotification`] of a session and an update. The name
/// says what it gives.
#[verifier::external_body]
fn notification_value(id: &str, update: SessionUpdate) -> (r: Result<Value, serde_json::Error>)
    ensures
        notification_json(id@, update) == (match r {
            Ok(value) => Ok::<JsonView, Seq<char>>(value_view(value)),
            Err(error) => Err(error_message(error)),
        }),
{
    serde_json::to_value(SessionNotification::new(id.to_owned(), update))
}

/// What the client is told of an update, or the message of the error for which it cannot be.
pub fn tell_update(id: &str, update: SessionUpdate) -> (r: Result<Json, String>)
    ensures
        value_or_text(r) == notification_json(id@, update),
{
    match notification_value(id, update) {
        Ok(value) => Ok(Json::from_value(value)),
        Err(error) => Err(message_of(&error)),
    }
}

/// What the client is told of updates, one after the other, until one cannot be told: what is
/// told, and the message of the error.
pub struct Told {
    pub params: Seq<JsonView>,
    pub error: Option<Seq<char>>,
}

/// What the client is told of updates.
pub open spec fn updates_told(id: Seq<char>, updates: Seq<SessionUpdate>) -> Told
    decreases updates.len(),
{
    if updates.len() == 0 {
        Told { params: Seq::empty(), error: None }
    } else {
        let before = updates_told(id, updates.drop_last());
        match before.error {
            Some(_) => before,
            None => match notification_json(id, updates.last()) {
                Ok(params) => Told { params: before.params.push(params), error: None },
                Err(text) => Told { params: before.params, error: Some(text) },
            },
        }
    }
}

/// What comes after an error is not told.
proof fn lemma_updates_told_error(id: Seq<char>, updates: Seq<SessionUpdate>, n: int)
    requires
        0 <= n <= updates.len(),
        updates_told(id, updates.take(n)).error is Some,
    ensures
        updates_told(id, updates) == updates_told(id, updates.take(n)),
    decreases updates.len(),
{
    if n == updates.len() {
        assert(updates.take(n) =~= updates);
    } else {
        assert(updates.drop_last().take(n) =~= updates.take(n));
        lemma_updates_told_error(id, updates.drop_last(), n);
    }
}

/// What the client is told of updates, and the message of the error for which the rest cannot be.
pub fn tell_updates(id: &str, updates: Vec<SessionUpdate>) -> (r: (Vec<Json>, Option<String>))
    ensures
        items_view(r.0@) == updates_told(id@, updates@).params,
        opt_string(r.1) == updates_told(id@, updates@).error,
{
    let ghost all = updates@;
    let mut params: Vec<Json> = Vec::new();
    for update in iter: updates
        invariant
            iter.seq() == all,
            all == updates@,
            updates_told(id@, all.take(iter.index())) == (Told {
                params: items_view(params@),
                error: None,
            }),
    {
        let ghost n = iter.index() + 1;
        proof {
            assert(all.take(n).drop_last() =~= all.take(n - 1));
            assert(all.take(n).last() == update);
        }
        match tell_update(id, update) {
            Ok(value) => {
                let ghost before = params@;
                params.push(value);
                assert(params@.drop_last() =~= before);
            },
            Err(text) => {
                proof {
                    lemma_updates_told_error(id@, all, n);
                }
                return (params, Some(text));
            },
        }
    }
    assert(all.take(all.len() as int) =~= all);
    (params, None)
}

} // verus!
