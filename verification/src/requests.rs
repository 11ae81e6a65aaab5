//! What the client asks for.

use agent_client_protocol_schema::v1::{
    CancelNotification, CloseSessionRequest, ContentBlock, ForkSessionRequest, InitializeRequest,
    ListSessionsRequest, LoadSessionRequest, McpServer, NewSessionRequest, PromptRequest,
    ResumeSessionRequest, SessionConfigOptionValue, SetSessionConfigOptionRequest,
    SetSessionModeRequest,
};
use serde_json::Value;
use vstd::prelude::*;

use crate::acp::{
    invalid, invalid_params, method_not_found, opt_value, unknown_method, ErrorView, RpcError,
};
use crate::json::{error_message, message_of, value_view, Json, JsonView};
use crate::prompt::{block_views, blocks_of, schema_block, Block, BlockView};
use crate::text::{opt_string, same_text};

verus! {

/// The value that a configuration option is set to.
#[verifier::external_type_specification]
#[verifier::external_body]
pub struct ExConfigValue(SessionConfigOptionValue);

/// An MCP server that a client asks for.
#[verifier::external_type_specification]
#[verifier::external_body]
pub struct ExMcpServer(McpServer);

/// A path of the standard library.
#[verifier::external_type_specification]
#[verifier::external_body]
pub struct ExPathBuf(std::path::PathBuf);

/// Where a session is to work, as the client puts it: the MCP servers and the directories beside
/// the working directory that it asks for, and what else it says.
pub struct WorkspaceParams {
    pub cwd: String,
    pub mcp_servers: Vec<McpServer>,
    pub additional_directories: Vec<std::path::PathBuf>,
    pub meta: Option<Value>,
}

/// Where a session is to work, with how many MCP servers and how many directories beside the
/// working directory.
pub struct Workspace {
    pub cwd: String,
    pub mcp_servers: usize,
    pub additional_directories: usize,
    pub meta: Option<Json>,
}

/// What a [`Workspace`] is.
pub struct WorkspaceView {
    pub cwd: Seq<char>,
    pub mcp_servers: usize,
    pub additional_directories: usize,
    pub meta: Option<JsonView>,
}

impl View for WorkspaceParams {
    type V = WorkspaceView;

    open spec fn view(&self) -> WorkspaceView {
        WorkspaceView {
            cwd: self.cwd@,
            mcp_servers: self.mcp_servers.len(),
            additional_directories: self.additional_directories.len(),
            meta: match self.meta {
                Some(meta) => Some(value_view(meta)),
                None => None,
            },
        }
    }
}

impl View for Workspace {
    type V = WorkspaceView;

    open spec fn view(&self) -> WorkspaceView {
        WorkspaceView {
            cwd: self.cwd@,
            mcp_servers: self.mcp_servers,
            additional_directories: self.additional_directories,
            meta: opt_value(self.meta),
        }
    }
}

impl WorkspaceParams {
    /// The same, to be read.
    fn read(self) -> (r: Workspace)
        ensures
            r@ == self@,
    {
        Workspace {
            cwd: self.cwd,
            mcp_servers: self.mcp_servers.len(),
            additional_directories: self.additional_directories.len(),
            meta: match self.meta {
                Some(meta) => Some(Json::from_value(meta)),
                None => None,
            },
        }
    }
}

/// A value, or the message of an error.
pub open spec fn or_message<T>(r: Result<T, serde_json::Error>) -> Result<T, Seq<char>> {
    match r {
        Ok(value) => Ok(value),
        Err(error) => Err(error_message(error)),
    }
}

/// The view of an id and a workspace, or of an error.
pub open spec fn session_workspace(
    r: Result<(String, WorkspaceParams), serde_json::Error>,
) -> Result<(Seq<char>, WorkspaceView), Seq<char>> {
    match r {
        Ok((id, workspace)) => Ok((id@, workspace@)),
        Err(error) => Err(error_message(error)),
    }
}

/// The view of an id, or of an error.
pub open spec fn session_alone(r: Result<String, serde_json::Error>) -> Result<
    Seq<char>,
    Seq<char>,
> {
    match r {
        Ok(id) => Ok(id@),
        Err(error) => Err(error_message(error)),
    }
}

/// The protocol version of an `initialize` request and whether the client can log the user in on
/// a terminal, or the message of an error.
pub uninterp spec fn initialize_params(params: JsonView) -> Result<(u16, bool), Seq<char>>;

/// The workspace of a `session/new` request, or the message of an error.
pub uninterp spec fn new_params(params: JsonView) -> Result<WorkspaceView, Seq<char>>;

/// The session and the workspace of a `session/load` request, or the message of an error.
pub uninterp spec fn load_params(params: JsonView) -> Result<(Seq<char>, WorkspaceView), Seq<char>>;

/// The session and the workspace of a `session/resume` request, or the message of an error.
pub uninterp spec fn resume_params(params: JsonView) -> Result<
    (Seq<char>, WorkspaceView),
    Seq<char>,
>;

/// The session and the workspace of a `session/fork` request, or the message of an error.
pub uninterp spec fn fork_params(params: JsonView) -> Result<(Seq<char>, WorkspaceView), Seq<char>>;

/// The directory and the cursor of a `session/list` request, or the message of an error.
pub uninterp spec fn list_params(params: JsonView) -> Result<
    (Option<Seq<char>>, Option<Seq<char>>),
    Seq<char>,
>;

/// The session of a `session/close` request, or the message of an error.
pub uninterp spec fn close_params(params: JsonView) -> Result<Seq<char>, Seq<char>>;

/// The session and the mode of a `session/set_mode` request, or the message of an error.
pub uninterp spec fn mode_params(params: JsonView) -> Result<(Seq<char>, Seq<char>), Seq<char>>;

/// The session, the option and its value of a `session/set_config_option` request, or the message
/// of an error.
pub uninterp spec fn option_params(params: JsonView) -> Result<
    (Seq<char>, Seq<char>, SessionConfigOptionValue),
    Seq<char>,
>;

/// The JSON form of an option's value, or the message of the error for which it has none.
pub uninterp spec fn option_value_json(value: SessionConfigOptionValue) -> Result<
    JsonView,
    Seq<char>,
>;

/// The session and the parts of a `session/prompt` request, or the message of an error.
pub uninterp spec fn prompt_params(params: JsonView) -> Result<
    (Seq<char>, Seq<ContentBlock>),
    Seq<char>,
>;

/// The session of a `session/cancel` notification, or the message of an error.
pub uninterp spec fn cancel_params(params: JsonView) -> Result<Seq<char>, Seq<char>>;

/// Calls `serde_json::from_value` for an [`InitializeRequest`]. The name says what it gives.
#[verifier::external_body]
fn read_initialize(params: Value) -> (r: Result<(u16, bool), serde_json::Error>)
    ensures
        or_message(r) == initialize_params(value_view(params)),
{
    serde_json::from_value::<InitializeRequest>(params).map(|request| {
        (request.protocol_version.as_u16(), request.client_capabilities.auth.terminal)
    })
}

/// Calls `serde_json::from_value` for a [`NewSessionRequest`]. The name says what it gives.
#[verifier::external_body]
fn read_new(params: Value) -> (r: Result<WorkspaceParams, serde_json::Error>)
    ensures
        new_params(value_view(params)) == (match r {
            Ok(workspace) => Ok::<WorkspaceView, Seq<char>>(workspace@),
            Err(error) => Err(error_message(error)),
        }),
{
    serde_json::from_value::<NewSessionRequest>(params).map(|request| WorkspaceParams {
        cwd: request.cwd.to_string_lossy().into_owned(),
        mcp_servers: request.mcp_servers,
        additional_directories: request.additional_directories,
        meta: request.meta.map(Value::Object),
    })
}

/// Calls `serde_json::from_value` for a [`LoadSessionRequest`]. The name says what it gives.
#[verifier::external_body]
fn read_load(params: Value) -> (r: Result<(String, WorkspaceParams), serde_json::Error>)
    ensures
        session_workspace(r) == load_params(value_view(params)),
{
    serde_json::from_value::<LoadSessionRequest>(params).map(|request| {
        (request.session_id.to_string(), WorkspaceParams {
            cwd: request.cwd.to_string_lossy().into_owned(),
            mcp_servers: request.mcp_servers,
            additional_directories: request.additional_directories,
            meta: request.meta.map(Value::Object),
        })
    })
}

/// Calls `serde_json::from_value` for a [`ResumeSessionRequest`]. The name says what it gives.
#[verifier::external_body]
fn read_resume(params: Value) -> (r: Result<(String, WorkspaceParams), serde_json::Error>)
    ensures
        session_workspace(r) == resume_params(value_view(params)),
{
    serde_json::from_value::<ResumeSessionRequest>(params).map(|request| {
        (request.session_id.to_string(), WorkspaceParams {
            cwd: request.cwd.to_string_lossy().into_owned(),
            mcp_servers: request.mcp_servers,
            additional_directories: request.additional_directories,
            meta: request.meta.map(Value::Object),
        })
    })
}

/// Calls `serde_json::from_value` for a [`ForkSessionRequest`]. The name says what it gives.
#[verifier::external_body]
fn read_fork(params: Value) -> (r: Result<(String, WorkspaceParams), serde_json::Error>)
    ensures
        session_workspace(r) == fork_params(value_view(params)),
{
    serde_json::from_value::<ForkSessionRequest>(params).map(|request| {
        (request.session_id.to_string(), WorkspaceParams {
            cwd: request.cwd.to_string_lossy().into_owned(),
            mcp_servers: request.mcp_servers,
            additional_directories: request.additional_directories,
            meta: request.meta.map(Value::Object),
        })
    })
}

/// Calls `serde_json::from_value` for a [`ListSessionsRequest`]. The name says what it gives.
#[verifier::external_body]
fn read_list(params: Value) -> (r: Result<(Option<String>, Option<String>), serde_json::Error>)
    ensures
        list_params(value_view(params)) == (match r {
            Ok((cwd, cursor)) => Ok::<(Option<Seq<char>>, Option<Seq<char>>), Seq<char>>(
                (opt_string(cwd), opt_string(cursor)),
            ),
            Err(error) => Err(error_message(error)),
        }),
{
    serde_json::from_value::<ListSessionsRequest>(params).map(|request| {
        (request.cwd.map(|cwd| cwd.to_string_lossy().into_owned()), request.cursor)
    })
}

/// Calls `serde_json::from_value` for a [`CloseSessionRequest`]. The name says what it gives.
#[verifier::external_body]
fn read_close(params: Value) -> (r: Result<String, serde_json::Error>)
    ensures
        session_alone(r) == close_params(value_view(params)),
{
    serde_json::from_value::<CloseSessionRequest>(params).map(|request| {
        request.session_id.to_string()
    })
}

/// Calls `serde_json::from_value` for a [`SetSessionModeRequest`]. The name says what it gives.
#[verifier::external_body]
fn read_mode(params: Value) -> (r: Result<(String, String), serde_json::Error>)
    ensures
        mode_params(value_view(params)) == (match r {
            Ok((id, mode)) => Ok::<(Seq<char>, Seq<char>), Seq<char>>((id@, mode@)),
            Err(error) => Err(error_message(error)),
        }),
{
    serde_json::from_value::<SetSessionModeRequest>(params).map(|request| {
        (request.session_id.to_string(), request.mode_id.to_string())
    })
}

/// Calls `serde_json::from_value` for a [`SetSessionConfigOptionRequest`]. The name says what it
/// gives.
#[verifier::external_body]
fn read_option(params: Value) -> (r: Result<
    (String, String, SessionConfigOptionValue),
    serde_json::Error,
>)
    ensures
        option_params(value_view(params)) == (match r {
            Ok((id, option, value)) => Ok::<
                (Seq<char>, Seq<char>, SessionConfigOptionValue),
                Seq<char>,
            >((id@, option@, value)),
            Err(error) => Err(error_message(error)),
        }),
{
    serde_json::from_value::<SetSessionConfigOptionRequest>(params).map(|request| {
        (request.session_id.to_string(), request.config_id.to_string(), request.value)
    })
}

/// Calls `serde_json::to_value` on a [`SessionConfigOptionValue`]. The name says what it gives.
#[verifier::external_body]
fn option_value(value: &SessionConfigOptionValue) -> (r: Result<Value, serde_json::Error>)
    ensures
        option_value_json(*value) == (match r {
            Ok(value) => Ok::<JsonView, Seq<char>>(value_view(value)),
            Err(error) => Err(error_message(error)),
        }),
{
    serde_json::to_value(value)
}

/// Calls `serde_json::from_value` for a [`PromptRequest`]. The name says what it gives.
#[verifier::external_body]
fn read_prompt(params: Value) -> (r: Result<(String, Vec<ContentBlock>), serde_json::Error>)
    ensures
        prompt_params(value_view(params)) == (match r {
            Ok((id, parts)) => Ok::<(Seq<char>, Seq<ContentBlock>), Seq<char>>((id@, parts@)),
            Err(error) => Err(error_message(error)),
        }),
{
    serde_json::from_value::<PromptRequest>(params).map(|request| {
        (request.session_id.to_string(), request.prompt)
    })
}

/// Calls `serde_json::from_value` for a [`CancelNotification`]. The name says what it gives.
#[verifier::external_body]
fn read_cancel(params: Value) -> (r: Result<String, serde_json::Error>)
    ensures
        session_alone(r) == cancel_params(value_view(params)),
{
    serde_json::from_value::<CancelNotification>(params).map(|notification| {
        notification.session_id.to_string()
    })
}

/// A request of the client.
pub enum Request {
    Initialize { protocol_version: u16, terminal: bool },
    New(Workspace),
    Load(String, Workspace),
    Resume(String, Workspace),
    List { cwd: Option<String>, cursor: Option<String> },
    Close(String),
    Fork(String, Workspace),
    SetMode { session_id: String, mode: String },
    SetOption { session_id: String, option: String, value: String },
    Prompt { session_id: String, blocks: Vec<Block> },
}

/// What a [`Request`] is.
pub enum RequestView {
    Initialize { protocol_version: u16, terminal: bool },
    New(WorkspaceView),
    Load(Seq<char>, WorkspaceView),
    Resume(Seq<char>, WorkspaceView),
    List { cwd: Option<Seq<char>>, cursor: Option<Seq<char>> },
    Close(Seq<char>),
    Fork(Seq<char>, WorkspaceView),
    SetMode { session_id: Seq<char>, mode: Seq<char> },
    SetOption { session_id: Seq<char>, option: Seq<char>, value: Seq<char> },
    Prompt { session_id: Seq<char>, blocks: Seq<BlockView> },
}

impl View for Request {
    type V = RequestView;

    open spec fn view(&self) -> RequestView {
        match self {
            Request::Initialize { protocol_version, terminal } => RequestView::Initialize {
                protocol_version: *protocol_version,
                terminal: *terminal,
            },
            Request::New(workspace) => RequestView::New(workspace@),
            Request::Load(id, workspace) => RequestView::Load(id@, workspace@),
            Request::Resume(id, workspace) => RequestView::Resume(id@, workspace@),
            Request::List { cwd, cursor } => RequestView::List {
                cwd: opt_string(*cwd),
                cursor: opt_string(*cursor),
            },
            Request::Close(id) => RequestView::Close(id@),
            Request::Fork(id, workspace) => RequestView::Fork(id@, workspace@),
            Request::SetMode { session_id, mode } => RequestView::SetMode {
                session_id: session_id@,
                mode: mode@,
            },
            Request::SetOption { session_id, option, value } => RequestView::SetOption {
                session_id: session_id@,
                option: option@,
                value: value@,
            },
            Request::Prompt { session_id, blocks } => RequestView::Prompt {
                session_id: session_id@,
                blocks: block_views(blocks@),
            },
        }
    }
}

/// The parameters of a request; one without any has an empty object.
pub open spec fn params_or_empty(params: Option<JsonView>) -> JsonView {
    match params {
        Some(params) => params,
        None => JsonView::object(),
    }
}

/// The text that an option is set to: the `value` of the value, or the value itself, where that is
/// a text, and else nothing.
pub open spec fn option_text(value: Result<JsonView, Seq<char>>) -> Seq<char> {
    match value {
        Ok(value) => match value.str_at("value"@) {
            Some(text) => text,
            None => match value.as_str() {
                Some(text) => text,
                None => Seq::empty(),
            },
        },
        Err(_) => Seq::empty(),
    }
}

/// What MCP servers are answered with.
pub open spec fn no_mcp() -> ErrorView {
    invalid(
        "Pi does not provide native MCP support; install a Pi extension or expose the MCP tool as a CLI"@,
    )
}

/// What directories beside the working directory are answered with.
pub open spec fn no_directories() -> ErrorView {
    invalid("Pi RPC sessions do not support ACP additionalDirectories"@)
}

/// A workspace without anything that Pi cannot do.
pub open spec fn accepted_workspace(workspace: WorkspaceView) -> Result<WorkspaceView, ErrorView> {
    if workspace.mcp_servers > 0 {
        Err(no_mcp())
    } else if workspace.additional_directories > 0 {
        Err(no_directories())
    } else {
        Ok(workspace)
    }
}

/// The request for a session and a workspace, which is asked for with `build`.
pub open spec fn with_workspace(
    params: Result<(Seq<char>, WorkspaceView), Seq<char>>,
    build: spec_fn(Seq<char>, WorkspaceView) -> RequestView,
) -> Result<RequestView, ErrorView> {
    match params {
        Err(text) => Err(invalid(text)),
        Ok((id, workspace)) => match accepted_workspace(workspace) {
            Err(error) => Err(error),
            Ok(workspace) => Ok(build(id, workspace)),
        },
    }
}

/// The request that a method and its parameters are, or what it is answered with.
pub open spec fn request_of(method: Seq<char>, given: Option<JsonView>) -> Result<
    RequestView,
    ErrorView,
> {
    let params = params_or_empty(given);
    if method == "initialize"@ {
        match initialize_params(params) {
            Err(text) => Err(invalid(text)),
            Ok((protocol_version, terminal)) => Ok(
                RequestView::Initialize { protocol_version, terminal },
            ),
        }
    } else if method == "session/new"@ {
        match new_params(params) {
            Err(text) => Err(invalid(text)),
            Ok(workspace) => match accepted_workspace(workspace) {
                Err(error) => Err(error),
                Ok(workspace) => Ok(RequestView::New(workspace)),
            },
        }
    } else if method == "session/load"@ {
        with_workspace(
            load_params(params),
            |id: Seq<char>, workspace: WorkspaceView| RequestView::Load(id, workspace),
        )
    } else if method == "session/resume"@ {
        with_workspace(
            resume_params(params),
            |id: Seq<char>, workspace: WorkspaceView| RequestView::Resume(id, workspace),
        )
    } else if method == "session/list"@ {
        match list_params(params) {
            Err(text) => Err(invalid(text)),
            Ok((cwd, cursor)) => Ok(RequestView::List { cwd, cursor }),
        }
    } else if method == "session/close"@ {
        match close_params(params) {
            Err(text) => Err(invalid(text)),
            Ok(id) => Ok(RequestView::Close(id)),
        }
    } else if method == "session/fork"@ {
        with_workspace(
            fork_params(params),
            |id: Seq<char>, workspace: WorkspaceView| RequestView::Fork(id, workspace),
        )
    } else if method == "session/set_mode"@ {
        match mode_params(params) {
            Err(text) => Err(invalid(text)),
            Ok((session_id, mode)) => Ok(RequestView::SetMode { session_id, mode }),
        }
    } else if method == "session/set_config_option"@ {
        match option_params(params) {
            Err(text) => Err(invalid(text)),
            Ok((session_id, option, value)) => Ok(
                RequestView::SetOption {
                    session_id,
                    option,
                    value: option_text(option_value_json(value)),
                },
            ),
        }
    } else if method == "session/prompt"@ {
        match prompt_params(params) {
            Err(text) => Err(invalid(text)),
            Ok((session_id, parts)) => Ok(
                RequestView::Prompt {
                    session_id,
                    blocks: parts.map_values(|part: ContentBlock| schema_block(part)),
                },
            ),
        }
    } else {
        Err(unknown_method(method))
    }
}

/// The view of a request or of an error.
pub open spec fn request_view(r: Result<Request, RpcError>) -> Result<RequestView, ErrorView> {
    match r {
        Ok(request) => Ok(request@),
        Err(error) => Err(error@),
    }
}

/// Refuses what Pi cannot do: MCP servers, and directories beside the working directory.
pub fn validate_workspace_inputs(
    mcp_servers: &[McpServer],
    additional_directories: &[std::path::PathBuf],
) -> (r: Result<(), RpcError>)
    ensures
        match r {
            Ok(_) => mcp_servers@.len() == 0 && additional_directories@.len() == 0,
            Err(error) => {
                &&& mcp_servers@.len() > 0 ==> error@ == no_mcp()
                &&& mcp_servers@.len() == 0 ==> additional_directories@.len() > 0 && error@
                    == no_directories()
            },
        },
{
    if mcp_servers.len() > 0 {
        return Err(
            invalid_params(
                "Pi does not provide native MCP support; install a Pi extension or expose the MCP tool as a CLI".to_owned(),
            ),
        );
    }
    if additional_directories.len() > 0 {
        return Err(
            invalid_params("Pi RPC sessions do not support ACP additionalDirectories".to_owned()),
        );
    }
    Ok(())
}

/// A session and a workspace without anything that Pi cannot do.
fn accept_workspace(read: Result<(String, WorkspaceParams), serde_json::Error>) -> (r: Result<
    (String, Workspace),
    RpcError,
>)
    ensures
        match r {
            Ok((id, workspace)) => {
                &&& session_workspace(read) == Ok::<(Seq<char>, WorkspaceView), Seq<char>>(
                    (id@, workspace@),
                )
                &&& accepted_workspace(workspace@) == Ok::<WorkspaceView, ErrorView>(workspace@)
            },
            Err(error) => match session_workspace(read) {
                Err(text) => error@ == invalid(text),
                Ok((_, workspace)) => accepted_workspace(workspace) == Err::<
                    WorkspaceView,
                    ErrorView,
                >(error@),
            },
        },
{
    match read {
        Err(error) => Err(invalid_params(message_of(&error))),
        Ok((id, workspace)) => match validate_workspace_inputs(
            workspace.mcp_servers.as_slice(),
            workspace.additional_directories.as_slice(),
        ) {
            Err(error) => Err(error),
            Ok(_) => Ok((id, workspace.read())),
        },
    }
}

/// The text that an option is set to.
fn text_of_option(value: &SessionConfigOptionValue) -> (r: String)
    ensures
        r@ == option_text(option_value_json(*value)),
{
    proof {
        reveal_strlit("");
        assert(""@ =~= Seq::<char>::empty());
    }
    match option_value(value) {
        Ok(value) => {
            let value = Json::from_value(value);
            let text: &str = match value.str_at("value") {
                Some(text) => text,
                None => match value.as_str() {
                    Some(text) => text,
                    None => "",
                },
            };
            text.to_owned()
        },
        Err(_) => "".to_owned(),
    }
}

/// The request that a method and its parameters are, or what it is answered with: parameters that
/// do not fit, and what Pi cannot do, are refused here, before any session is touched.
pub fn decode_request(method: &str, params: Option<Json>) -> (r: Result<Request, RpcError>)
    ensures
        request_view(r) == request_of(method@, opt_value(params)),
{
    let params: Value = match params {
        Some(params) => params.to_value(),
        None => Json::object().to_value(),
    };
    if same_text(method, "initialize") {
        match read_initialize(params) {
            Err(error) => Err(invalid_params(message_of(&error))),
            Ok((protocol_version, terminal)) => Ok(
                Request::Initialize { protocol_version, terminal },
            ),
        }
    } else if same_text(method, "session/new") {
        match read_new(params) {
            Err(error) => Err(invalid_params(message_of(&error))),
            Ok(workspace) => match validate_workspace_inputs(
                workspace.mcp_servers.as_slice(),
                workspace.additional_directories.as_slice(),
            ) {
                Err(error) => Err(error),
                Ok(_) => Ok(Request::New(workspace.read())),
            },
        }
    } else if same_text(method, "session/load") {
        match accept_workspace(read_load(params)) {
            Err(error) => Err(error),
            Ok((id, workspace)) => Ok(Request::Load(id, workspace)),
        }
    } else if same_text(method, "session/resume") {
        match accept_workspace(read_resume(params)) {
            Err(error) => Err(error),
            Ok((id, workspace)) => Ok(Request::Resume(id, workspace)),
        }
    } else if same_text(method, "session/list") {
        match read_list(params) {
            Err(error) => Err(invalid_params(message_of(&error))),
            Ok((cwd, cursor)) => Ok(Request::List { cwd, cursor }),
        }
    } else if same_text(method, "session/close") {
        match read_close(params) {
            Err(error) => Err(invalid_params(message_of(&error))),
            Ok(id) => Ok(Request::Close(id)),
        }
    } else if same_text(method, "session/fork") {
        match accept_workspace(read_fork(params)) {
            Err(error) => Err(error),
            Ok((id, workspace)) => Ok(Request::Fork(id, workspace)),
        }
    } else if same_text(method, "session/set_mode") {
        match read_mode(params) {
            Err(error) => Err(invalid_params(message_of(&error))),
            Ok((session_id, mode)) => Ok(Request::SetMode { session_id, mode }),
        }
    } else if same_text(method, "session/set_config_option") {
        match read_option(params) {
            Err(error) => Err(invalid_params(message_of(&error))),
            Ok((session_id, option, value)) => {
                let value: String = text_of_option(&value);
                Ok(Request::SetOption { session_id, option, value })
            },
        }
    } else if same_text(method, "session/prompt") {
        match read_prompt(params) {
            Err(error) => Err(invalid_params(message_of(&error))),
            Ok((session_id, parts)) => Ok(
                Request::Prompt { session_id, blocks: blocks_of(parts) },
            ),
        }
    } else {
        Err(method_not_found(method.to_owned()))
    }
}

/// The session that a notification cancels, or why there is none.
pub open spec fn notification_of(method: Seq<char>, params: Option<JsonView>) -> Result<
    Seq<char>,
    ErrorView,
> {
    if method == "session/cancel"@ {
        match cancel_params(params_or_empty(params)) {
            Err(text) => Err(invalid(text)),
            Ok(id) => Ok(id),
        }
    } else {
        Err(unknown_method(method))
    }
}

/// The session that a notification cancels, or why there is none.
pub fn decode_notification(method: &str, params: Option<Json>) -> (r: Result<String, RpcError>)
    ensures
        notification_of(method@, opt_value(params)) == (match r {
            Ok(id) => Ok::<Seq<char>, ErrorView>(id@),
            Err(error) => Err(error@),
        }),
{
    if same_text(method, "session/cancel") {
        let params: Value = match params {
            Some(params) => params.to_value(),
            None => Json::object().to_value(),
        };
        match read_cancel(params) {
            Err(error) => Err(invalid_params(message_of(&error))),
            Ok(id) => Ok(id),
        }
    } else {
        Err(method_not_found(method.to_owned()))
    }
}

/// A session with MCP servers is refused, whatever else is asked for: Pi has no place for them.
pub proof fn mcp_servers_are_refused(method: Seq<char>, params: Option<JsonView>)
    requires
        match session_params(method, params_or_empty(params)) {
            Some(Ok(workspace)) => workspace.mcp_servers > 0,
            _ => false,
        },
    ensures
        request_of(method, params) == Err::<RequestView, ErrorView>(no_mcp()),
{
    lemma_methods_differ();
}

/// A session with directories beside its working directory is refused.
pub proof fn additional_directories_are_refused(method: Seq<char>, params: Option<JsonView>)
    requires
        match session_params(method, params_or_empty(params)) {
            Some(Ok(workspace)) => workspace.mcp_servers == 0 && workspace.additional_directories
                > 0,
            _ => false,
        },
    ensures
        request_of(method, params) == Err::<RequestView, ErrorView>(no_directories()),
{
    lemma_methods_differ();
}

/// The workspace of a request that opens a session.
pub open spec fn session_params(method: Seq<char>, params: JsonView) -> Option<
    Result<WorkspaceView, Seq<char>>,
> {
    if method == "session/new"@ {
        Some(new_params(params))
    } else if method == "session/load"@ {
        Some(only_workspace(load_params(params)))
    } else if method == "session/resume"@ {
        Some(only_workspace(resume_params(params)))
    } else if method == "session/fork"@ {
        Some(only_workspace(fork_params(params)))
    } else {
        None
    }
}

/// The workspace beside an id.
pub open spec fn only_workspace(params: Result<(Seq<char>, WorkspaceView), Seq<char>>) -> Result<
    WorkspaceView,
    Seq<char>,
> {
    match params {
        Ok((_, workspace)) => Ok(workspace),
        Err(text) => Err(text),
    }
}

proof fn lemma_methods_differ()
    ensures
        "session/new"@.len() == 11,
        "session/load"@.len() == 12,
        "session/resume"@.len() == 14,
        "session/list"@.len() == 12,
        "session/close"@.len() == 13,
        "session/fork"@.len() == 12,
        "initialize"@.len() == 10,
        "session/load"@[8] == 'l' && "session/load"@[9] == 'o',
        "session/list"@[8] == 'l' && "session/list"@[9] == 'i',
        "session/fork"@[8] == 'f',
{
    reveal_strlit("session/new");
    reveal_strlit("session/load");
    reveal_strlit("session/resume");
    reveal_strlit("session/list");
    reveal_strlit("session/close");
    reveal_strlit("session/fork");
    reveal_strlit("initialize");
}

} // verus!
