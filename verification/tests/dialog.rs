use agent_client_protocol_schema::v1::RequestPermissionRequest;
use pi_acp::dialog::{asks_user, needs_response, permission_request, respond};
use pi_acp::json::Json;

fn parse(text: &str) -> Json {
    Json::parse(text.as_bytes()).unwrap()
}

fn question(rest: &str) -> Json {
    parse(&format!(r#"{{"type":"extension_ui_request","id":"q1",{rest}}}"#))
}

fn selected(option: &str) -> Result<Json, String> {
    Ok(parse(&format!(r#"{{"outcome":{{"outcome":"selected","optionId":"{option}"}}}}"#)))
}

#[test]
fn a_choice_is_asked_as_a_permission() {
    let event = question(r#""method":"select","title":"Pick","options":["first","second"]"#);
    assert!(asks_user(&event));
    let params = permission_request("s", &event).unwrap();
    assert_eq!(
        params.display(),
        r#"{"sessionId":"s","toolCall":{"toolCallId":"extension-ui-q1","title":"Pick"},"options":[{"optionId":"choice-0","name":"first","kind":"allow_once"},{"optionId":"choice-1","name":"second","kind":"allow_once"}]}"#
    );
    let request: RequestPermissionRequest = serde_json::from_value(params.to_value()).unwrap();
    assert_eq!(request.options.len(), 2);
    assert_eq!(serde_json::to_value(&request).unwrap(), params.to_value());
}

#[test]
fn the_selected_choice_comes_back() {
    let event = question(r#""method":"select","title":"Pick","options":["first","second"]"#);
    assert_eq!(
        respond(&event, &selected("choice-0")).display(),
        r#"{"type":"extension_ui_response","id":"q1","value":"first"}"#
    );
    assert_eq!(
        respond(&event, &selected("choice-1")).display(),
        r#"{"type":"extension_ui_response","id":"q1","value":"second"}"#
    );
}

#[test]
fn a_confirmation_is_yes_or_no() {
    let event = question(r#""method":"confirm","title":"Delete","message":"Really?""#);
    let params = permission_request("s", &event).unwrap();
    assert_eq!(params.str_in("toolCall", "title"), Some("Delete: Really?"));
    let options = params.items_at("options").unwrap();
    assert_eq!(options[0].display(), r#"{"optionId":"choice-0","name":"Yes","kind":"allow_once"}"#);
    assert_eq!(options[1].display(), r#"{"optionId":"choice-1","name":"No","kind":"reject_once"}"#);
    serde_json::from_value::<RequestPermissionRequest>(params.to_value()).unwrap();
    assert_eq!(
        respond(&event, &selected("choice-0")).display(),
        r#"{"type":"extension_ui_response","id":"q1","confirmed":true}"#
    );
    assert_eq!(
        respond(&event, &selected("choice-1")).display(),
        r#"{"type":"extension_ui_response","id":"q1","confirmed":false}"#
    );
}

#[test]
fn an_answer_that_is_no_choice_cancels() {
    let event = question(r#""method":"select","title":"Pick","options":["first"]"#);
    let cancelled = r#"{"type":"extension_ui_response","id":"q1","cancelled":true}"#;
    assert_eq!(respond(&event, &selected("choice-1")).display(), cancelled);
    assert_eq!(respond(&event, &selected("first")).display(), cancelled);
    assert_eq!(respond(&event, &Err("late".to_owned())).display(), cancelled);
    let outcome = Ok(parse(r#"{"outcome":{"outcome":"cancelled"}}"#));
    assert_eq!(respond(&event, &outcome).display(), cancelled);
    assert_eq!(respond(&event, &Ok(parse("{}"))).display(), cancelled);
}

#[test]
fn free_input_cannot_be_asked_for_and_is_cancelled() {
    let event = question(r#""method":"input","title":"Name?""#);
    assert!(permission_request("s", &event).is_none());
    assert!(needs_response(&event));
    assert_eq!(
        respond(&event, &Err("unsupported".to_owned())).display(),
        r#"{"type":"extension_ui_response","id":"q1","cancelled":true}"#
    );
    let empty = question(r#""method":"select","title":"Pick","options":[]"#);
    assert!(permission_request("s", &empty).is_none());
    assert!(needs_response(&empty));
}

#[test]
fn what_is_only_told_is_not_answered() {
    for method in ["notify", "setStatus", "setWidget", "setTitle", "set_editor_text"] {
        let event = question(&format!(r#""method":"{method}","message":"m""#));
        assert!(permission_request("s", &event).is_none());
        assert!(!needs_response(&event));
    }
    assert!(!asks_user(&parse(r#"{"type":"agent_end"}"#)));
}
