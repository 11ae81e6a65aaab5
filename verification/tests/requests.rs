use std::path::PathBuf;

use pi_acp::acp::{ErrorKind, RpcError};
use pi_acp::json::Json;
use pi_acp::requests::{
    decode_notification, decode_request, validate_workspace_inputs, Request,
};

fn parse(text: &str) -> Json {
    Json::parse(text.as_bytes()).unwrap()
}

fn decode(method: &str, params: &str) -> Request {
    match decode_request(method, Some(parse(params))) {
        Ok(request) => request,
        Err(error) => panic!("{:?} {:?}", error.kind, error.data),
    }
}

fn refused(method: &str, params: &str) -> RpcError {
    match decode_request(method, Some(parse(params))) {
        Ok(_) => panic!("accepted"),
        Err(error) => error,
    }
}

#[test]
fn initialize_says_what_the_client_can_do() {
    match decode("initialize", r#"{"protocolVersion":1,"clientCapabilities":{"auth":{"terminal":true}}}"#) {
        Request::Initialize { protocol_version, terminal } => {
            assert_eq!(protocol_version, 1);
            assert!(terminal);
        }
        _ => panic!("wrong request"),
    }
    match decode("initialize", r#"{"protocolVersion":1,"clientCapabilities":{}}"#) {
        Request::Initialize { terminal, .. } => assert!(!terminal),
        _ => panic!("wrong request"),
    }
}

#[test]
fn a_new_session_has_its_workspace() {
    let request = decode(
        "session/new",
        r#"{"cwd":"/work","mcpServers":[],"_meta":{"systemPrompt":"test instructions"}}"#,
    );
    match request {
        Request::New(workspace) => {
            assert_eq!(workspace.cwd, "/work");
            assert_eq!(workspace.mcp_servers, 0);
            assert_eq!(workspace.additional_directories, 0);
            assert_eq!(workspace.meta.unwrap().str_at("systemPrompt"), Some("test instructions"));
        }
        _ => panic!("wrong request"),
    }
}

#[test]
fn known_sessions_are_named() {
    let params = r#"{"sessionId":"s","cwd":"/work","mcpServers":[]}"#;
    match decode("session/load", params) {
        Request::Load(id, workspace) => {
            assert_eq!(id, "s");
            assert_eq!(workspace.cwd, "/work");
            assert!(workspace.meta.is_none());
        }
        _ => panic!("wrong request"),
    }
    assert!(matches!(decode("session/resume", params), Request::Resume(id, _) if id == "s"));
    assert!(matches!(decode("session/fork", params), Request::Fork(id, _) if id == "s"));
    assert!(matches!(decode("session/close", r#"{"sessionId":"s"}"#), Request::Close(id) if id == "s"));
}

#[test]
fn listings_may_have_a_directory_and_a_cursor() {
    match decode("session/list", r#"{"cwd":"/work","cursor":"100"}"#) {
        Request::List { cwd, cursor } => {
            assert_eq!(cwd.as_deref(), Some("/work"));
            assert_eq!(cursor.as_deref(), Some("100"));
        }
        _ => panic!("wrong request"),
    }
    match decode_request("session/list", None) {
        Ok(Request::List { cwd, cursor }) => {
            assert!(cwd.is_none());
            assert!(cursor.is_none());
        }
        _ => panic!("wrong request"),
    }
}

#[test]
fn modes_and_options_are_set_by_name() {
    match decode("session/set_mode", r#"{"sessionId":"s","modeId":"high"}"#) {
        Request::SetMode { session_id, mode } => {
            assert_eq!(session_id, "s");
            assert_eq!(mode, "high");
        }
        _ => panic!("wrong request"),
    }
    let request = decode(
        "session/set_config_option",
        r#"{"sessionId":"s","configId":"model","value":"openai/gpt-5"}"#,
    );
    match request {
        Request::SetOption { session_id, option, value } => {
            assert_eq!(session_id, "s");
            assert_eq!(option, "model");
            assert_eq!(value, "openai/gpt-5");
        }
        _ => panic!("wrong request"),
    }
    let request = decode(
        "session/set_config_option",
        r#"{"sessionId":"s","configId":"x","type":"boolean","value":true}"#,
    );
    assert!(matches!(request, Request::SetOption { value, .. } if value.is_empty()));
}

#[test]
fn mcp_servers_and_other_directories_are_refused() {
    let server = r#""mcpServers":[{"name":"m","command":"/bin/m","args":[],"env":[]}]"#;
    let none = r#""mcpServers":[]"#;
    for method in ["session/new", "session/load", "session/resume", "session/fork"] {
        let error = refused(method, &format!(r#"{{"sessionId":"s","cwd":"/w",{server}}}"#));
        assert!(error.kind == ErrorKind::InvalidParams);
        assert_eq!(
            error.data.as_deref(),
            Some("Pi does not provide native MCP support; install a Pi extension or expose the MCP tool as a CLI")
        );
        let error = refused(
            method,
            &format!(r#"{{"sessionId":"s","cwd":"/w",{none},"additionalDirectories":["/x"]}}"#),
        );
        assert!(error.kind == ErrorKind::InvalidParams);
        assert_eq!(
            error.data.as_deref(),
            Some("Pi RPC sessions do not support ACP additionalDirectories")
        );
    }
    assert!(validate_workspace_inputs(&[], &[]).is_ok());
    assert!(validate_workspace_inputs(&[], &[PathBuf::from("/x")]).is_err());
}

#[test]
fn parameters_that_do_not_fit_are_refused() {
    let error = refused("session/close", "{}");
    assert!(error.kind == ErrorKind::InvalidParams);
    assert_eq!(error.data.as_deref(), Some("missing field `sessionId`"));
    assert!(decode_request("session/new", None).is_err());
}

#[test]
fn unknown_methods_are_refused() {
    let error = refused("session/dance", "{}");
    assert!(error.kind == ErrorKind::MethodNotFound);
    assert_eq!(error.data.as_deref(), Some("session/dance"));
}

#[test]
fn the_only_notification_is_a_cancellation() {
    let id = decode_notification("session/cancel", Some(parse(r#"{"sessionId":"s"}"#)));
    assert_eq!(id.ok().unwrap(), "s");
    let error = decode_notification("session/cancel", None).err().unwrap();
    assert!(error.kind == ErrorKind::InvalidParams);
    let error = decode_notification("session/other", None).err().unwrap();
    assert!(error.kind == ErrorKind::MethodNotFound);
    assert_eq!(error.data.as_deref(), Some("session/other"));
}
