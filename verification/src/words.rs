//! Names that stand in the messages of both protocols, told apart by their lengths and letters.

use vstd::prelude::*;

verus! {

/// The types of Pi's events.
pub(crate) proof fn lemma_event_kinds()
    ensures
        "message_update"@.len() == 14,
        "tool_execution_start"@.len() == 20,
        "tool_execution_update"@.len() == 21,
        "tool_execution_end"@.len() == 18,
        "extension_error"@.len() == 15,
        "auto_retry_start"@.len() == 16,
{
    reveal_strlit("message_update");
    reveal_strlit("tool_execution_start");
    reveal_strlit("tool_execution_update");
    reveal_strlit("tool_execution_end");
    reveal_strlit("extension_error");
    reveal_strlit("auto_retry_start");
}

/// The members of an update's body.
pub(crate) proof fn lemma_body_keys()
    ensures
        "sessionUpdate"@.len() == 13,
        "toolCallId"@.len() == 10,
        "status"@.len() == 6,
        "content"@.len() == 7,
        "content"@[0] == 'c',
        "title"@.len() == 5,
        "kind"@.len() == 4,
        "kind"@[1] == 'i',
        "locations"@.len() == 9,
        "locations"@[0] == 'l',
        "rawInput"@.len() == 8,
        "rawOutput"@.len() == 9,
        "rawOutput"@[0] == 'r',
        "type"@.len() == 4,
        "type"@[1] == 'y',
        "path"@.len() == 4,
        "path"@[1] == 'a',
        "oldText"@.len() == 7,
        "oldText"@[0] == 'o',
        "newText"@.len() == 7,
        "newText"@[0] == 'n',
        "text"@.len() == 4,
        "text"@[1] == 'e',
{
    reveal_strlit("sessionUpdate");
    reveal_strlit("toolCallId");
    reveal_strlit("status");
    reveal_strlit("content");
    reveal_strlit("title");
    reveal_strlit("kind");
    reveal_strlit("locations");
    reveal_strlit("rawInput");
    reveal_strlit("rawOutput");
    reveal_strlit("type");
    reveal_strlit("path");
    reveal_strlit("oldText");
    reveal_strlit("newText");
    reveal_strlit("text");
}

/// The members and the types of the parts of a tool's result.
pub(crate) proof fn lemma_part_words()
    ensures
        "type"@.len() == 4,
        "type"@[1] == 'y',
        "content"@.len() == 7,
        "text"@.len() == 4,
        "text"@[1] == 'e',
        "image"@.len() == 5,
{
    reveal_strlit("type");
    reveal_strlit("content");
    reveal_strlit("text");
    reveal_strlit("image");
}

/// The types of the events of a message.
pub(crate) proof fn lemma_delta_kinds()
    ensures
        "text_delta"@.len() == 10,
        "text_end"@.len() == 8,
        "thinking_delta"@.len() == 14,
{
    reveal_strlit("text_delta");
    reveal_strlit("text_end");
    reveal_strlit("thinking_delta");
}

/// The tools that are known by name, and what they do.
pub(crate) proof fn lemma_tool_names()
    ensures
        "read"@.len() == 4,
        "read"@[0] == 'r',
        "grep"@.len() == 4,
        "grep"@[0] == 'g',
        "find"@.len() == 4,
        "find"@[0] == 'f',
        "ls"@.len() == 2,
        "write"@.len() == 5,
        "write"@[0] == 'w',
        "bash"@.len() == 4,
        "bash"@[0] == 'b',
        "edit"@.len() == 4,
        "edit"@[0] == 'e',
        "tool"@.len() == 4,
        "tool"@[0] == 't',
        "search"@.len() == 6,
        "execute"@.len() == 7,
        "other"@.len() == 5,
        "other"@[0] == 'o',
{
    reveal_strlit("read");
    reveal_strlit("grep");
    reveal_strlit("find");
    reveal_strlit("ls");
    reveal_strlit("write");
    reveal_strlit("bash");
    reveal_strlit("edit");
    reveal_strlit("tool");
    reveal_strlit("search");
    reveal_strlit("execute");
    reveal_strlit("other");
}

/// The names of the slash commands.
pub(crate) proof fn lemma_slash_names()
    ensures
        "compact"@.len() == 7,
        "compact"@[0] == 'c',
        "session"@.len() == 7,
        "session"@[0] == 's',
        "name"@.len() == 4,
        "steering"@.len() == 8,
        "follow-up"@.len() == 9,
        "export"@.len() == 6,
{
    reveal_strlit("compact");
    reveal_strlit("session");
    reveal_strlit("name");
    reveal_strlit("steering");
    reveal_strlit("follow-up");
    reveal_strlit("export");
}

/// The members of the commands to Pi.
pub(crate) proof fn lemma_command_keys()
    ensures
        "type"@.len() == 4,
        "type"@[0] == 't',
        "customInstructions"@.len() == 18,
        "name"@.len() == 4,
        "name"@[0] == 'n',
        "mode"@.len() == 4,
        "mode"@[0] == 'm',
        "outputPath"@.len() == 10,
        "level"@.len() == 5,
        "provider"@.len() == 8,
        "provider"@[0] == 'p',
        "modelId"@.len() == 7,
        "modelId"@[1] == 'o',
        "message"@.len() == 7,
        "message"@[1] == 'e',
        "images"@.len() == 6,
        "data"@.len() == 4,
        "data"@[0] == 'd',
        "mimeType"@.len() == 8,
        "mimeType"@[0] == 'm',
{
    reveal_strlit("type");
    reveal_strlit("customInstructions");
    reveal_strlit("name");
    reveal_strlit("mode");
    reveal_strlit("outputPath");
    reveal_strlit("level");
    reveal_strlit("provider");
    reveal_strlit("modelId");
    reveal_strlit("message");
    reveal_strlit("images");
    reveal_strlit("data");
    reveal_strlit("mimeType");
}

/// The members of what the client is told and answered.
pub(crate) proof fn lemma_reply_keys()
    ensures
        "sessionId"@.len() == 9,
        "sessionId"@[0] == 's',
        "modes"@.len() == 5,
        "modes"@[0] == 'm',
        "configOptions"@.len() == 13,
        "configOptions"@[1] == 'o',
        "currentModeId"@.len() == 13,
        "currentModeId"@[1] == 'u',
        "availableModes"@.len() == 14,
        "id"@.len() == 2,
        "name"@.len() == 4,
        "name"@[0] == 'n',
        "category"@.len() == 8,
        "category"@[0] == 'c',
        "type"@.len() == 4,
        "type"@[0] == 't',
        "currentValue"@.len() == 12,
        "options"@.len() == 7,
        "group"@.len() == 5,
        "group"@[0] == 'g',
        "value"@.len() == 5,
        "value"@[0] == 'v',
        "description"@.len() == 11,
        "stopReason"@.len() == 10,
        "stopReason"@[0] == 's',
        "update"@.len() == 6,
        "sessionUpdate"@.len() == 13,
        "sessionUpdate"@[1] == 'e',
        "availableCommands"@.len() == 17,
        "sessions"@.len() == 8,
        "sessions"@[0] == 's',
        "nextCursor"@.len() == 10,
        "nextCursor"@[0] == 'n',
        "cwd"@.len() == 3,
        "title"@.len() == 5,
        "title"@[0] == 't',
        "updatedAt"@.len() == 9,
        "updatedAt"@[0] == 'u',
{
    reveal_strlit("sessionId");
    reveal_strlit("modes");
    reveal_strlit("configOptions");
    reveal_strlit("currentModeId");
    reveal_strlit("availableModes");
    reveal_strlit("id");
    reveal_strlit("name");
    reveal_strlit("category");
    reveal_strlit("type");
    reveal_strlit("currentValue");
    reveal_strlit("options");
    reveal_strlit("group");
    reveal_strlit("value");
    reveal_strlit("description");
    reveal_strlit("stopReason");
    reveal_strlit("update");
    reveal_strlit("sessionUpdate");
    reveal_strlit("availableCommands");
    reveal_strlit("sessions");
    reveal_strlit("nextCursor");
    reveal_strlit("cwd");
    reveal_strlit("title");
    reveal_strlit("updatedAt");
}

/// The members of what the client is told of the adapter.
pub(crate) proof fn lemma_agent_keys()
    ensures
        "protocolVersion"@.len() == 15,
        "protocolVersion"@[0] == 'p',
        "agentCapabilities"@.len() == 17,
        "authMethods"@.len() == 11,
        "authMethods"@[0] == 'a',
        "agentInfo"@.len() == 9,
        "loadSession"@.len() == 11,
        "loadSession"@[0] == 'l',
        "promptCapabilities"@.len() == 18,
        "mcpCapabilities"@.len() == 15,
        "mcpCapabilities"@[0] == 'm',
        "sessionCapabilities"@.len() == 19,
        "auth"@.len() == 4,
        "auth"@[1] == 'u',
        "image"@.len() == 5,
        "image"@[0] == 'i',
        "audio"@.len() == 5,
        "audio"@[0] == 'a',
        "embeddedContext"@.len() == 15,
        "embeddedContext"@[0] == 'e',
        "http"@.len() == 4,
        "http"@[1] == 't',
        "sse"@.len() == 3,
        "list"@.len() == 4,
        "list"@[1] == 'i',
        "fork"@.len() == 4,
        "fork"@[1] == 'o',
        "resume"@.len() == 6,
        "close"@.len() == 5,
        "close"@[0] == 'c',
        "type"@.len() == 4,
        "type"@[1] == 'y',
        "id"@.len() == 2,
        "name"@.len() == 4,
        "name"@[1] == 'a',
        "args"@.len() == 4,
        "args"@[1] == 'r',
        "title"@.len() == 5,
        "title"@[0] == 't',
        "version"@.len() == 7,
{
    reveal_strlit("protocolVersion");
    reveal_strlit("agentCapabilities");
    reveal_strlit("authMethods");
    reveal_strlit("agentInfo");
    reveal_strlit("loadSession");
    reveal_strlit("promptCapabilities");
    reveal_strlit("mcpCapabilities");
    reveal_strlit("sessionCapabilities");
    reveal_strlit("auth");
    reveal_strlit("image");
    reveal_strlit("audio");
    reveal_strlit("embeddedContext");
    reveal_strlit("http");
    reveal_strlit("sse");
    reveal_strlit("list");
    reveal_strlit("fork");
    reveal_strlit("resume");
    reveal_strlit("close");
    reveal_strlit("type");
    reveal_strlit("id");
    reveal_strlit("name");
    reveal_strlit("args");
    reveal_strlit("title");
    reveal_strlit("version");
}

/// The methods that a client can call.
pub(crate) proof fn lemma_methods()
    ensures
        "initialize"@.len() == 10,
        "session/new"@.len() == 11,
        "session/load"@.len() == 12,
        "session/load"@[10] == 'a',
        "session/resume"@.len() == 14,
        "session/resume"@[8] == 'r',
        "session/list"@.len() == 12,
        "session/list"@[10] == 's',
        "session/close"@.len() == 13,
        "session/fork"@.len() == 12,
        "session/fork"@[10] == 'r',
        "session/set_mode"@.len() == 16,
        "session/set_config_option"@.len() == 25,
        "session/prompt"@.len() == 14,
        "session/prompt"@[8] == 'p',
        "session/cancel"@.len() == 14,
        "session/cancel"@[8] == 'c',
{
    reveal_strlit("initialize");
    reveal_strlit("session/new");
    reveal_strlit("session/load");
    reveal_strlit("session/resume");
    reveal_strlit("session/list");
    reveal_strlit("session/close");
    reveal_strlit("session/fork");
    reveal_strlit("session/set_mode");
    reveal_strlit("session/set_config_option");
    reveal_strlit("session/prompt");
    reveal_strlit("session/cancel");
}

/// The members of a message to the client.
pub(crate) proof fn lemma_envelope_keys()
    ensures
        "jsonrpc"@.len() == 7,
        "jsonrpc"@[0] == 'j',
        "id"@.len() == 2,
        "result"@.len() == 6,
        "result"@[0] == 'r',
        "error"@.len() == 5,
        "method"@.len() == 6,
        "method"@[0] == 'm',
        "params"@.len() == 6,
        "params"@[0] == 'p',
        "code"@.len() == 4,
        "code"@[0] == 'c',
        "message"@.len() == 7,
        "message"@[0] == 'm',
        "data"@.len() == 4,
        "data"@[0] == 'd',
{
    reveal_strlit("jsonrpc");
    reveal_strlit("id");
    reveal_strlit("result");
    reveal_strlit("error");
    reveal_strlit("method");
    reveal_strlit("params");
    reveal_strlit("code");
    reveal_strlit("message");
    reveal_strlit("data");
}

/// The members and the words of an extension's questions and of the answers to them.
pub(crate) proof fn lemma_dialog_words()
    ensures
        "type"@.len() == 4,
        "type"@[0] == 't',
        "id"@.len() == 2,
        "cancelled"@.len() == 9,
        "cancelled"@[3] == 'c',
        "value"@.len() == 5,
        "value"@[0] == 'v',
        "confirmed"@.len() == 9,
        "confirmed"@[3] == 'f',
        "sessionId"@.len() == 9,
        "sessionId"@[3] == 's',
        "toolCall"@.len() == 8,
        "toolCall"@[0] == 't',
        "options"@.len() == 7,
        "options"@[0] == 'o',
        "toolCallId"@.len() == 10,
        "title"@.len() == 5,
        "title"@[0] == 't',
        "optionId"@.len() == 8,
        "optionId"@[0] == 'o',
        "name"@.len() == 4,
        "name"@[0] == 'n',
        "kind"@.len() == 4,
        "kind"@[0] == 'k',
        "select"@.len() == 6,
        "select"@[0] == 's',
        "confirm"@.len() == 7,
        "confirm"@[0] == 'c',
        "notify"@.len() == 6,
        "notify"@[0] == 'n',
        "setStatus"@.len() == 9,
        "setStatus"@[3] == 'S',
        "setWidget"@.len() == 9,
        "setWidget"@[3] == 'W',
        "setTitle"@.len() == 8,
        "setTitle"@[0] == 's',
        "set_editor_text"@.len() == 15,
{
    reveal_strlit("type");
    reveal_strlit("id");
    reveal_strlit("cancelled");
    reveal_strlit("value");
    reveal_strlit("confirmed");
    reveal_strlit("sessionId");
    reveal_strlit("toolCall");
    reveal_strlit("options");
    reveal_strlit("toolCallId");
    reveal_strlit("title");
    reveal_strlit("optionId");
    reveal_strlit("name");
    reveal_strlit("kind");
    reveal_strlit("select");
    reveal_strlit("confirm");
    reveal_strlit("notify");
    reveal_strlit("setStatus");
    reveal_strlit("setWidget");
    reveal_strlit("setTitle");
    reveal_strlit("set_editor_text");
}

} // verus!
