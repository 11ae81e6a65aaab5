use agent_client_protocol_schema::v1::Error;
use pi_acp::acp::{
    answer_lost, client_timed_out, internal_error, invalid_params, method_not_found, route,
    ErrorKind, Incoming, Peer, RecordReader, RequestId, Route, RpcError, FIRST_REQUEST_ID,
    MAX_ACP_RECORD_BYTES,
};
use pi_acp::json::Json;

fn parse(text: &str) -> Json {
    Json::parse(text.as_bytes()).unwrap()
}

fn line(record: Result<Vec<u8>, String>) -> String {
    String::from_utf8(record.unwrap()).unwrap()
}

fn incoming(jsonrpc: &str, id: Option<RequestId>, method: &str) -> Incoming {
    Incoming {
        jsonrpc: jsonrpc.to_owned(),
        id,
        method: method.to_owned(),
        params: None,
        result: None,
        error: None,
    }
}

#[test]
fn errors_have_the_codes_of_the_protocol() {
    assert_eq!(
        internal_error("boom".to_owned()).to_json().display(),
        r#"{"code":-32603,"message":"Internal error","data":"boom"}"#
    );
    assert_eq!(
        invalid_params("bad".to_owned()).to_json().display(),
        r#"{"code":-32602,"message":"Invalid params","data":"bad"}"#
    );
    assert_eq!(
        method_not_found("x/y".to_owned()).to_json().display(),
        r#"{"code":-32601,"message":"Method not found","data":"x/y"}"#
    );
    let bare = RpcError { kind: ErrorKind::InvalidRequest, data: None };
    assert_eq!(bare.to_json().display(), r#"{"code":-32600,"message":"Invalid request"}"#);
    let broken = RpcError { kind: ErrorKind::ParseError, data: Some("eof".to_owned()) };
    assert_eq!(
        broken.to_json().display(),
        r#"{"code":-32700,"message":"Parse error","data":"eof"}"#
    );
}

#[test]
fn errors_match_those_of_the_schema() {
    let pairs = vec![
        (Error::parse_error().data("t"), ErrorKind::ParseError),
        (Error::invalid_request().data("t"), ErrorKind::InvalidRequest),
        (Error::method_not_found().data("t"), ErrorKind::MethodNotFound),
        (Error::invalid_params().data("t"), ErrorKind::InvalidParams),
        (Error::internal_error().data("t"), ErrorKind::InternalError),
    ];
    for (schema, kind) in pairs {
        let own = RpcError { kind, data: Some("t".to_owned()) };
        assert_eq!(own.to_json().to_value(), serde_json::to_value(schema).unwrap());
    }
}

#[test]
fn empty_records_are_skipped() {
    assert!(matches!(route(true, Err("eof".to_owned())), Route::Skip));
}

#[test]
fn unreadable_records_are_refused_with_the_reason() {
    match route(false, Err("eof".to_owned())) {
        Route::Refuse(error) => {
            assert!(error.kind == ErrorKind::ParseError);
            assert_eq!(error.data.as_deref(), Some("eof"));
        }
        _ => panic!("not refused"),
    }
}

#[test]
fn other_protocol_versions_are_refused() {
    match route(false, Ok(incoming("1.0", Some(RequestId::Number(1)), "initialize"))) {
        Route::Refuse(error) => {
            assert!(error.kind == ErrorKind::InvalidRequest);
            assert!(error.data.is_none());
        }
        _ => panic!("not refused"),
    }
}

#[test]
fn messages_go_by_id_and_method() {
    assert!(matches!(
        route(false, Ok(incoming("2.0", Some(RequestId::Number(1)), "initialize"))),
        Route::Request { .. }
    ));
    assert!(matches!(
        route(false, Ok(incoming("2.0", None, "session/cancel"))),
        Route::Notification { .. }
    ));
    let mut answer = incoming("2.0", Some(RequestId::Str("a".to_owned())), "");
    answer.result = Some(parse("{}"));
    match route(false, Ok(answer)) {
        Route::Response { id, result, error } => {
            assert_eq!(id.to_json().display(), "\"a\"");
            assert!(result.is_some());
            assert!(error.is_none());
        }
        _ => panic!("not a response"),
    }
}

#[test]
fn messages_have_the_form_of_the_protocol() {
    let peer = Peer::new();
    assert_eq!(
        line(peer.result(&RequestId::Number(7), parse(r#"{"a":1}"#))),
        "{\"jsonrpc\":\"2.0\",\"id\":7,\"result\":{\"a\":1}}\n"
    );
    assert_eq!(
        line(peer.error(&RequestId::Null, &invalid_params("x".to_owned()))),
        "{\"jsonrpc\":\"2.0\",\"id\":null,\"error\":{\"code\":-32602,\"message\":\"Invalid params\",\"data\":\"x\"}}\n"
    );
    assert_eq!(
        line(peer.notification("session/update", parse("[]"))),
        "{\"jsonrpc\":\"2.0\",\"method\":\"session/update\",\"params\":[]}\n"
    );
}

#[test]
fn requests_to_the_client_are_answered_by_number() {
    let mut peer = Peer::new();
    let (first, record) = peer.request("session/request_permission", parse("{}"));
    assert_eq!(first, FIRST_REQUEST_ID);
    assert_eq!(
        line(record),
        "{\"jsonrpc\":\"2.0\",\"id\":1000000000,\"method\":\"session/request_permission\",\"params\":{}}\n"
    );
    let (second, _) = peer.request("m", parse("{}"));
    assert_eq!(second, FIRST_REQUEST_ID + 1);
    let answer = peer.receive_response(&RequestId::Number(first), Some(parse("[1]")), None);
    assert_eq!(answer.unwrap().1.ok().unwrap().display(), "[1]");
    assert!(peer.receive_response(&RequestId::Number(first), Some(parse("[1]")), None).is_none());
    assert!(peer.receive_response(&RequestId::Str("x".to_owned()), None, None).is_none());
    peer.forget(second);
    assert!(peer.receive_response(&RequestId::Number(second), None, None).is_none());
}

#[test]
fn answers_without_a_result_are_errors() {
    let mut peer = Peer::new();
    let (id, _) = peer.request("m", parse("{}"));
    let answer = peer.receive_response(&RequestId::Number(id), None, None).unwrap().1;
    assert_eq!(answer.err().unwrap(), "ACP client response had no result or error");
    let (id, _) = peer.request("m", parse("{}"));
    let answer = peer
        .receive_response(&RequestId::Number(id), Some(parse("1")), Some(parse(r#"{"code":1}"#)))
        .unwrap()
        .1;
    assert_eq!(answer.err().unwrap(), r#"ACP client request failed: {"code":1}"#);
}

#[test]
fn late_and_lost_answers_have_their_texts() {
    assert_eq!(client_timed_out("m"), "ACP client request m timed out after 300s");
    assert_eq!(answer_lost(), "ACP client response channel closed");
}

#[test]
fn records_that_are_too_long_are_not_written() {
    let peer = Peer::new();
    let frame = line(peer.notification("m", Json::text(""))).len() - 1;
    let fits = Json::text(&"x".repeat(MAX_ACP_RECORD_BYTES - frame));
    assert_eq!(peer.notification("m", fits).unwrap().len(), MAX_ACP_RECORD_BYTES + 1);
    let over = Json::text(&"x".repeat(MAX_ACP_RECORD_BYTES - frame + 1));
    assert_eq!(
        peer.notification("m", over).err().unwrap(),
        "ACP output record exceeded 16777216 bytes"
    );
}

#[test]
fn a_request_that_cannot_be_written_does_not_wait() {
    let mut peer = Peer::new();
    let (id, record) = peer.request("m", Json::text(&"x".repeat(MAX_ACP_RECORD_BYTES)));
    assert!(record.is_err());
    assert!(peer.receive_response(&RequestId::Number(id), Some(parse("1")), None).is_none());
}

#[test]
fn the_reader_gives_one_record_after_the_other() {
    let mut reader = RecordReader::new();
    reader.feed(b"{\"a\":1}\r\n\n{\"b\"");
    assert_eq!(reader.next().unwrap().unwrap(), b"{\"a\":1}");
    assert_eq!(reader.next().unwrap().unwrap(), b"");
    assert!(reader.next().unwrap().is_none());
    reader.feed(b":2}");
    assert!(reader.next().unwrap().is_none());
    assert_eq!(reader.finish().unwrap(), b"{\"b\":2}");
    assert!(reader.finish().is_none());
}

#[test]
fn the_reader_refuses_records_that_are_too_long() {
    let mut reader = RecordReader::new();
    reader.feed(&vec![b'x'; MAX_ACP_RECORD_BYTES]);
    assert!(reader.next().unwrap().is_none());
    reader.feed(b"xx");
    assert_eq!(reader.next().err().unwrap(), "ACP input record exceeded 16777216 bytes");
}

#[test]
fn written_records_are_read_back() {
    let peer = Peer::new();
    let mut reader = RecordReader::new();
    let messages = vec![parse(r#"{"text":"a\nb"}"#), parse("[]"), parse("null")];
    for message in &messages {
        reader.feed(&peer.notification("m", message.copy()).unwrap());
    }
    for message in &messages {
        let record = reader.next().unwrap().unwrap();
        let read = Json::parse(&record).unwrap();
        assert_eq!(read.get("params").unwrap().display(), message.display());
    }
    assert!(reader.next().unwrap().is_none());
}
