//! Laws on what the client sends and what it is sent: how its messages are read, and how answers,
//! errors and notifications are written.

use vstd::prelude::*;

use crate::acp::{
    answer_of, error_message, next_number, notification_message, record_of, request_message,
    result_message, route_of, ErrorKind, ErrorView, IdView, IncomingView, RouteView,
};
use crate::flow::{on_wire, permission_method, MessageView};
use crate::json::{
    json_display, json_written, member_is_counted_once, member_reads_back, number_from, JsonView,
};
use crate::prompt::schema_block;
use crate::requests::{
    cancel_params, close_params, fork_params, initialize_params, list_params, load_params,
    mode_params, new_params, notification_of, option_params, option_text, option_value_json,
    prompt_params, request_of, resume_params, RequestView, WorkspaceView,
};
use crate::words::{lemma_envelope_keys, lemma_methods};

verus! {

/// Whether a request is refused because of its parameters, for the given reason.
pub open spec fn is_refused_for(r: Result<RequestView, ErrorView>, reason: Seq<char>) -> bool {
    r matches Err(error) && error.kind is InvalidParams && error.data == Some(reason)
}

/// Whether Pi can work in a workspace: it has neither MCP servers nor directories beside the
/// working directory.
pub open spec fn is_usable(workspace: WorkspaceView) -> bool {
    workspace.mcp_servers == 0 && workspace.additional_directories == 0
}

/// Whether a request to open a workspace is refused because Pi cannot work in it.
pub open spec fn is_refused_workspace(
    r: Result<RequestView, ErrorView>,
    workspace: WorkspaceView,
) -> bool {
    is_refused_for(
        r,
        if workspace.mcp_servers > 0 {
            "Pi does not provide native MCP support; install a Pi extension or expose the MCP tool as a CLI"@
        } else {
            "Pi RPC sessions do not support ACP additionalDirectories"@
        },
    )
}

/// A request without parameters is one with an empty object for them.
pub proof fn missing_parameters_are_empty(method: Seq<char>)
    ensures
        request_of(method, None) == request_of(method, Some(JsonView::object())),
        notification_of(method, None) == notification_of(method, Some(JsonView::object())),
{
}

/// A client introduces itself by the version of its protocol and whether it has a terminal.
pub proof fn introductions_are_read(params: JsonView)
    ensures
        match initialize_params(params) {
            Ok((protocol_version, terminal)) => request_of("initialize"@, Some(params)) == Ok::<
                RequestView,
                ErrorView,
            >(RequestView::Initialize { protocol_version, terminal }),
            Err(text) => is_refused_for(request_of("initialize"@, Some(params)), text),
        },
{
}

/// A new session is made in the workspace that is asked for, if Pi can work in it.
pub proof fn new_sessions_are_read(params: JsonView)
    ensures
        match new_params(params) {
            Ok(workspace) => if is_usable(workspace) {
                request_of("session/new"@, Some(params)) == Ok::<RequestView, ErrorView>(
                    RequestView::New(workspace),
                )
            } else {
                is_refused_workspace(request_of("session/new"@, Some(params)), workspace)
            },
            Err(text) => is_refused_for(request_of("session/new"@, Some(params)), text),
        },
{
    lemma_methods();
}

/// A session is loaded by its id, if Pi can work in the workspace that is asked for.
pub proof fn loaded_sessions_are_read(params: JsonView)
    ensures
        match load_params(params) {
            Ok((id, workspace)) => if is_usable(workspace) {
                request_of("session/load"@, Some(params)) == Ok::<RequestView, ErrorView>(
                    RequestView::Load(id, workspace),
                )
            } else {
                is_refused_workspace(request_of("session/load"@, Some(params)), workspace)
            },
            Err(text) => is_refused_for(request_of("session/load"@, Some(params)), text),
        },
{
    lemma_methods();
}

/// A session is resumed by its id, if Pi can work in the workspace that is asked for.
pub proof fn resumed_sessions_are_read(params: JsonView)
    ensures
        match resume_params(params) {
            Ok((id, workspace)) => if is_usable(workspace) {
                request_of("session/resume"@, Some(params)) == Ok::<RequestView, ErrorView>(
                    RequestView::Resume(id, workspace),
                )
            } else {
                is_refused_workspace(request_of("session/resume"@, Some(params)), workspace)
            },
            Err(text) => is_refused_for(request_of("session/resume"@, Some(params)), text),
        },
{
    lemma_methods();
}

/// A session is forked by its id, if Pi can work in the workspace that is asked for.
pub proof fn forked_sessions_are_read(params: JsonView)
    ensures
        match fork_params(params) {
            Ok((id, workspace)) => if is_usable(workspace) {
                request_of("session/fork"@, Some(params)) == Ok::<RequestView, ErrorView>(
                    RequestView::Fork(id, workspace),
                )
            } else {
                is_refused_workspace(request_of("session/fork"@, Some(params)), workspace)
            },
            Err(text) => is_refused_for(request_of("session/fork"@, Some(params)), text),
        },
{
    lemma_methods();
}

/// Sessions are listed for a directory and from a cursor on, where these are given, and a session
/// is closed by its id.
pub proof fn listings_and_closings_are_read(params: JsonView)
    ensures
        match list_params(params) {
            Ok((cwd, cursor)) => request_of("session/list"@, Some(params)) == Ok::<
                RequestView,
                ErrorView,
            >(RequestView::List { cwd, cursor }),
            Err(text) => is_refused_for(request_of("session/list"@, Some(params)), text),
        },
        match close_params(params) {
            Ok(id) => request_of("session/close"@, Some(params)) == Ok::<RequestView, ErrorView>(
                RequestView::Close(id),
            ),
            Err(text) => is_refused_for(request_of("session/close"@, Some(params)), text),
        },
{
    lemma_methods();
}

/// A mode is set for a session by the mode's id, and an option by its id and its value.
pub proof fn settings_are_read(params: JsonView)
    ensures
        match mode_params(params) {
            Ok((session_id, mode)) => request_of("session/set_mode"@, Some(params)) == Ok::<
                RequestView,
                ErrorView,
            >(RequestView::SetMode { session_id, mode }),
            Err(text) => is_refused_for(request_of("session/set_mode"@, Some(params)), text),
        },
        match option_params(params) {
            Ok((id, wanted, to)) => request_of("session/set_config_option"@, Some(params)) matches Ok(
                RequestView::SetOption { session_id, option, value },
            ) && session_id == id && option == wanted && value == option_text(
                option_value_json(to),
            ),
            Err(text) => is_refused_for(
                request_of("session/set_config_option"@, Some(params)),
                text,
            ),
        },
{
    lemma_methods();
}

/// The value of an option is the text under `value`, or else the text that it is itself, and
/// nothing where it is neither.
pub proof fn option_values_are_texts(value: JsonView, text: Seq<char>)
    ensures
        value.str_at("value"@) is Some ==> Some(option_text(Ok(value))) == value.str_at("value"@),
        option_text(Ok(JsonView::String(text))) == text,
        value.str_at("value"@) is None && !(value is String) ==> option_text(Ok(value)).len() == 0,
        option_text(Err(text)).len() == 0,
{
}

/// A prompt is read part by part, in order.
pub proof fn prompts_are_read(params: JsonView)
    ensures
        match prompt_params(params) {
            Ok((id, parts)) => request_of("session/prompt"@, Some(params)) matches Ok(
                RequestView::Prompt { session_id, blocks },
            ) && {
                &&& session_id == id
                &&& blocks.len() == parts.len()
                &&& forall|i: int|
                    0 <= i < parts.len() ==> #[trigger] blocks[i] == schema_block(parts[i])
            },
            Err(text) => is_refused_for(request_of("session/prompt"@, Some(params)), text),
        },
{
    lemma_methods();
}

/// A cancellation names the session; there is no other notification.
pub proof fn cancellations_are_read(method: Seq<char>, params: JsonView)
    ensures
        match cancel_params(params) {
            Ok(id) => notification_of("session/cancel"@, Some(params)) == Ok::<
                Seq<char>,
                ErrorView,
            >(id),
            Err(text) => notification_of("session/cancel"@, Some(params)) matches Err(error)
                && error.kind is InvalidParams && error.data == Some(text),
        },
        method != "session/cancel"@ ==> (notification_of(method, Some(params)) matches Err(error)
            && error.kind is MethodNotFound && error.data == Some(method)),
{
}

/// Whether a method is one that a client can call for an answer.
pub open spec fn is_known_method(method: Seq<char>) -> bool {
    ||| method == "initialize"@
    ||| method == "session/new"@
    ||| method == "session/load"@
    ||| method == "session/resume"@
    ||| method == "session/list"@
    ||| method == "session/close"@
    ||| method == "session/fork"@
    ||| method == "session/set_mode"@
    ||| method == "session/set_config_option"@
    ||| method == "session/prompt"@
}

/// A method that is not known is refused by its name.
pub proof fn unknown_methods_are_refused(method: Seq<char>, params: Option<JsonView>)
    requires
        !is_known_method(method),
    ensures
        request_of(method, params) matches Err(error) && error.kind is MethodNotFound && error.data
            == Some(method),
{
}

/// A message that is not of the protocol's version is refused, and so is one that cannot be read,
/// with the reason for that.
pub proof fn strange_messages_are_refused(message: IncomingView, text: Seq<char>)
    ensures
        message.jsonrpc != "2.0"@ ==> (route_of(Ok(message)) matches RouteView::Refuse(error)
            && error.kind is InvalidRequest && error.data is None),
        route_of(Err(text)) matches RouteView::Refuse(error) && error.kind is ParseError
            && error.data == Some(text),
{
}

/// A message with an id and a method is a request, one with an id only answers a request to the
/// client, and one without an id is a notification. Each is handed on with all that it has.
pub proof fn messages_find_their_way(message: IncomingView)
    requires
        message.jsonrpc == "2.0"@,
    ensures
        match message.id {
            Some(id) => if message.method.len() > 0 {
                route_of(Ok(message)) == (RouteView::Request {
                    id,
                    method: message.method,
                    params: message.params,
                })
            } else {
                route_of(Ok(message)) == (RouteView::Response {
                    id,
                    result: message.result,
                    error: message.error,
                })
            },
            None => route_of(Ok(message)) == (RouteView::Notification {
                method: message.method,
                params: message.params,
            }),
        },
{
}

/// A message to the client is one line: its JSON text and a line feed. It is not sent where the
/// text has more than 16777216 bytes, or where there is none.
pub proof fn messages_are_lines(message: JsonView)
    ensures
        match json_written(message) {
            Ok(text) => if text.len() <= 16777216 {
                record_of(message) == Ok::<Seq<u8>, Seq<char>>(text + seq![10u8])
            } else {
                record_of(message) == Err::<Seq<u8>, Seq<char>>(
                    "ACP output record exceeded 16777216 bytes"@,
                )
            },
            Err(text) => record_of(message) == Err::<Seq<u8>, Seq<char>>(text),
        },
{
    if let Ok(text) = json_written(message) {
        assert(text.push(10u8) =~= text + seq![10u8]);
    }
}

/// Whether a member is the id of a request: a number, a text or `null`.
pub open spec fn is_id(value: Option<JsonView>, id: IdView) -> bool {
    match id {
        IdView::Null => value == Some(JsonView::Null),
        IdView::Number(n) => value == Some(JsonView::Number(number_from(n))),
        IdView::Str(s) => value == Some(JsonView::String(s)),
    }
}

/// Answers and requests carry their id, and every message its version and what it is about.
pub proof fn messages_are_complete(
    id: IdView,
    result: JsonView,
    method: Seq<char>,
    params: JsonView,
)
    ensures
        ({
            let answer = result_message(id, result);
            &&& answer.size() == 3
            &&& answer.str_at("jsonrpc"@) == Some("2.0"@)
            &&& is_id(answer.get("id"@), id)
            &&& answer.get("result"@) == Some(result)
        }),
        ({
            let notice = notification_message(method, params);
            &&& notice.size() == 3
            &&& notice.str_at("jsonrpc"@) == Some("2.0"@)
            &&& notice.str_at("method"@) == Some(method)
            &&& notice.get("params"@) == Some(params)
        }),
        ({
            let request = request_message(id, method, params);
            &&& request.size() == 4
            &&& request.str_at("jsonrpc"@) == Some("2.0"@)
            &&& is_id(request.get("id"@), id)
            &&& request.str_at("method"@) == Some(method)
            &&& request.get("params"@) == Some(params)
        }),
{
    broadcast use {member_is_counted_once, member_reads_back};

    lemma_envelope_keys();
}

/// Whether an error object has the code and the words of a kind of error.
pub open spec fn has_code(error: JsonView, code: i64, words: Seq<char>) -> bool {
    &&& error.get("code"@) == Some(JsonView::Number(number_from(code)))
    &&& error.str_at("message"@) == Some(words)
}

/// A refusal carries the id of the request and the code, the words and the data of the error.
pub proof fn refusals_are_complete(id: IdView, error: ErrorView)
    ensures
        ({
            let refusal = error_message(id, error);
            &&& refusal.size() == 3
            &&& refusal.str_at("jsonrpc"@) == Some("2.0"@)
            &&& is_id(refusal.get("id"@), id)
            &&& refusal.get("error"@) matches Some(told) && {
                &&& error.data is Some ==> told.size() == 3 && told.str_at("data"@) == error.data
                &&& error.data is None ==> told.size() == 2 && told.get("data"@) is None
                &&& match error.kind {
                    ErrorKind::ParseError => has_code(told, -32700i64, "Parse error"@),
                    ErrorKind::InvalidRequest => has_code(told, -32600i64, "Invalid request"@),
                    ErrorKind::MethodNotFound => has_code(told, -32601i64, "Method not found"@),
                    ErrorKind::InvalidParams => has_code(told, -32602i64, "Invalid params"@),
                    ErrorKind::InternalError => has_code(told, -32603i64, "Internal error"@),
                }
            }
        }),
{
    broadcast use {member_is_counted_once, member_reads_back};

    lemma_envelope_keys();
}

/// The client's result counts where it gives no error, its error counts in any case, and an
/// answer without either is a failure.
pub proof fn client_answers_are_taken(result: JsonView, error: JsonView)
    ensures
        answer_of(Some(result), None) == Ok::<JsonView, Seq<char>>(result),
        answer_of(Some(result), Some(error)) == Err::<JsonView, Seq<char>>(
            "ACP client request failed: "@ + json_display(error),
        ),
        answer_of(None, Some(error)) == answer_of(Some(result), Some(error)),
        answer_of(None, None) == Err::<JsonView, Seq<char>>(
            "ACP client response had no result or error"@,
        ),
{
}

/// Requests to the client are numbered one after the other.
pub proof fn requests_are_numbered(n: i64)
    ensures
        n < i64::MAX ==> next_number(n) == n + 1,
        n == i64::MAX ==> next_number(n) == i64::MIN,
{
}

/// What is told of a session is a notification for updates of sessions, and an answer carries the
/// id of its request. The client is asked for permissions by the method for these.
pub proof fn messages_use_their_methods(params: JsonView, id: IdView)
    ensures
        ({
            let update = on_wire(MessageView::Update(params), id);
            &&& update.size() == 3
            &&& update.str_at("method"@) == Some("session/update"@)
            &&& update.get("params"@) == Some(params)
            &&& update.get("id"@) is None
        }),
        ({
            let answer = on_wire(MessageView::Reply(params), id);
            &&& answer.size() == 3
            &&& is_id(answer.get("id"@), id)
            &&& answer.get("result"@) == Some(params)
            &&& answer.get("method"@) is None
        }),
        request_message(id, permission_method(), params).str_at("method"@) == Some(
            "session/request_permission"@,
        ),
{
    broadcast use {member_is_counted_once, member_reads_back};

    lemma_envelope_keys();
}

} // verus!
