use agent_client_protocol_schema::v1::SessionUpdate;
use pi_acp::json::Json;
use pi_acp::translate::{
    file_to_read, message_history_updates, pi_event_updates, text_update, tool_content, tool_kind,
    tool_location, tool_title, TurnState,
};

fn parse(text: &str) -> Json {
    Json::parse(text.as_bytes()).unwrap()
}

fn wire(update: &SessionUpdate) -> Json {
    Json::from_value(serde_json::to_value(update).unwrap())
}

fn wires(updates: Result<Vec<SessionUpdate>, String>) -> Vec<Json> {
    updates.unwrap().iter().map(wire).collect()
}

fn heard(event: &str, state: &mut TurnState) -> Vec<Json> {
    wires(pi_event_updates(&parse(event), None, None, state))
}

fn delta(kind: &str, rest: &str) -> String {
    format!(r#"{{"type":"message_update","assistantMessageEvent":{{"type":"{kind}",{rest}}}}}"#)
}

#[test]
fn text_updates_are_of_their_kind() {
    let update = wire(&text_update("agent_message_chunk", "hi").unwrap());
    assert_eq!(update.str_at("sessionUpdate"), Some("agent_message_chunk"));
    assert_eq!(update.str_in("content", "text"), Some("hi"));
    assert!(text_update("no_such_update", "hi").is_err());
}

#[test]
fn text_and_thoughts_are_sent_as_they_come() {
    let mut state = TurnState::new(4);
    let text = heard(&delta("text_delta", r#""contentIndex":0,"delta":"a""#), &mut state);
    assert_eq!(text.len(), 1);
    assert_eq!(text[0].str_at("sessionUpdate"), Some("agent_message_chunk"));
    assert_eq!(text[0].str_in("content", "text"), Some("a"));
    let thought = heard(&delta("thinking_delta", r#""delta":"hm""#), &mut state);
    assert_eq!(thought[0].str_at("sessionUpdate"), Some("agent_thought_chunk"));
    assert_eq!(thought[0].str_in("content", "text"), Some("hm"));
    assert!(heard(&delta("text_delta", r#""delta":5"#), &mut state).is_empty());
}

#[test]
fn streamed_text_is_not_sent_again_at_its_end() {
    let mut state = TurnState::new(4);
    heard(&delta("text_delta", r#""contentIndex":3,"delta":"a""#), &mut state);
    assert!(heard(&delta("text_end", r#""contentIndex":3,"content":"a""#), &mut state).is_empty());
    let whole = heard(&delta("text_end", r#""contentIndex":4,"content":"b""#), &mut state);
    assert_eq!(whole[0].str_in("content", "text"), Some("b"));
}

#[test]
fn text_without_a_number_counts_as_one_block() {
    let mut state = TurnState::new(4);
    heard(&delta("text_delta", r#""delta":"a""#), &mut state);
    assert!(heard(&delta("text_end", r#""content":"a""#), &mut state).is_empty());
}

#[test]
fn tool_calls_are_announced_followed_and_ended() {
    let mut state = TurnState::new(4);
    let start = parse(
        r#"{"type":"tool_execution_start","toolCallId":"t","toolName":"bash","args":{"command":"ls"}}"#,
    );
    let started = wires(pi_event_updates(&start, Some("/w/f"), None, &mut state));
    assert_eq!(started[0].str_at("sessionUpdate"), Some("tool_call"));
    assert_eq!(started[0].str_at("toolCallId"), Some("t"));
    assert_eq!(started[0].str_at("title"), Some("ls"));
    assert_eq!(started[0].str_at("kind"), Some("execute"));
    assert_eq!(started[0].str_at("status"), Some("in_progress"));
    assert_eq!(started[0].items_at("locations").unwrap()[0].str_at("path"), Some("/w/f"));
    assert_eq!(started[0].str_in("rawInput", "command"), Some("ls"));
    let progress = heard(
        r#"{"type":"tool_execution_update","toolCallId":"t","partialResult":{"content":[{"type":"text","text":"x"}]}}"#,
        &mut state,
    );
    assert_eq!(progress[0].str_at("sessionUpdate"), Some("tool_call_update"));
    let ended = heard(
        r#"{"type":"tool_execution_end","toolCallId":"t","isError":true,"result":{"content":[{"type":"text","text":"y"}]}}"#,
        &mut state,
    );
    assert_eq!(ended[0].str_at("status"), Some("failed"));
    assert_eq!(ended[0].items_at("content").unwrap()[0].str_in("content", "text"), Some("y"));
}

#[test]
fn an_edit_is_shown_as_a_change_before_the_result() {
    let mut state = TurnState::new(4);
    let start = parse(
        r#"{"type":"tool_execution_start","toolCallId":"t","toolName":"edit","args":{"path":"f"}}"#,
    );
    assert_eq!(file_to_read(&start, Some("/w/f"), &state).as_deref(), Some("/w/f"));
    wires(pi_event_updates(&start, Some("/w/f"), Some("old".to_owned()), &mut state));
    let end = parse(
        r#"{"type":"tool_execution_end","toolCallId":"t","result":{"content":[{"type":"text","text":"done"}]}}"#,
    );
    assert_eq!(file_to_read(&end, None, &state).as_deref(), Some("/w/f"));
    let ended = wires(pi_event_updates(&end, None, Some("new".to_owned()), &mut state));
    let content = ended[0].items_at("content").unwrap();
    assert_eq!(content.len(), 2);
    assert_eq!(content[0].str_at("type"), Some("diff"));
    assert_eq!(content[0].str_at("path"), Some("/w/f"));
    assert_eq!(content[0].str_at("oldText"), Some("old"));
    assert_eq!(content[0].str_at("newText"), Some("new"));
    assert_eq!(content[1].str_in("content", "text"), Some("done"));
    assert_eq!(ended[0].str_at("status"), Some("completed"));
    assert!(file_to_read(&end, None, &state).is_none());
}

#[test]
fn an_edit_that_changes_nothing_shows_no_change() {
    let mut state = TurnState::new(4);
    let start = parse(
        r#"{"type":"tool_execution_start","toolCallId":"t","toolName":"edit","args":{"path":"f"}}"#,
    );
    wires(pi_event_updates(&start, Some("/w/f"), Some("same".to_owned()), &mut state));
    let end = parse(r#"{"type":"tool_execution_end","toolCallId":"t"}"#);
    let ended = wires(pi_event_updates(&end, None, Some("same".to_owned()), &mut state));
    assert!(ended[0].items_at("content").is_none() || ended[0].items_at("content").unwrap().is_empty());
}

fn edit(id: &str, state: &mut TurnState) -> Result<Vec<SessionUpdate>, String> {
    let start = parse(&format!(
        r#"{{"type":"tool_execution_start","toolCallId":"{id}","toolName":"edit","args":{{"path":"f"}}}}"#
    ));
    pi_event_updates(&start, Some("/w/f"), Some("old".to_owned()), state)
}

#[test]
fn tracked_edits_are_bounded_and_warned_about() {
    let mut state = TurnState::new(5);
    for id in ["a", "b", "c"] {
        edit(id, &mut state).unwrap();
    }
    assert!(!state.warned_near_limit());
    edit("d", &mut state).unwrap();
    assert!(state.warned_near_limit());
    edit("e", &mut state).unwrap();
    assert_eq!(
        edit("f", &mut state).err().unwrap(),
        "tracked edit tool limit (5) reached; raise --max-tracked-tool-calls to allow more"
    );
    let end = parse(r#"{"type":"tool_execution_end","toolCallId":"b"}"#);
    pi_event_updates(&end, None, None, &mut state).unwrap();
    edit("f", &mut state).unwrap();
}

#[test]
fn troubles_are_thought_aloud() {
    let mut state = TurnState::new(1);
    let error = heard(r#"{"type":"extension_error","error":"bad"}"#, &mut state);
    assert_eq!(error[0].str_at("sessionUpdate"), Some("agent_thought_chunk"));
    assert_eq!(error[0].str_in("content", "text"), Some("bad"));
    let retry = heard(r#"{"type":"auto_retry_start","errorMessage":"busy"}"#, &mut state);
    assert_eq!(retry[0].str_in("content", "text"), Some("busy"));
    let bare = heard(r#"{"type":"auto_retry_start"}"#, &mut state);
    assert_eq!(bare[0].str_in("content", "text"), Some("Pi is retrying after an error"));
    assert!(heard(r#"{"type":"turn_start"}"#, &mut state).is_empty());
}

#[test]
fn tools_have_titles_and_kinds() {
    assert_eq!(tool_title(&parse(r#"{"toolName":"bash","args":{"command":"ls"}}"#)), "ls");
    assert_eq!(tool_title(&parse(r#"{"toolName":"grep","args":{"command":"ls"}}"#)), "grep");
    assert_eq!(tool_title(&parse("{}")), "tool");
    assert_eq!(tool_kind(Some("bash")), "execute");
    assert_eq!(tool_kind(Some("write")), "edit");
    assert_eq!(tool_kind(Some("read")), "search");
    assert_eq!(tool_kind(Some("mystery")), "other");
    assert_eq!(tool_kind(None), "other");
}

#[test]
fn tool_results_keep_texts_and_images() {
    let result = parse(
        r#"{"content":[{"type":"text","text":"a"},{"type":"audio"},{"type":"image","data":"d","mimeType":"m"}]}"#,
    );
    let content = tool_content(Some(&result));
    assert_eq!(content.len(), 2);
    assert_eq!(content[0].display(), r#"{"type":"content","content":{"type":"text","text":"a"}}"#);
    assert_eq!(content[1].str_in("content", "type"), Some("image"));
    assert!(tool_content(None).is_empty());
}

#[test]
fn tool_locations_are_seen_from_the_working_directory() {
    let relative = parse(r#"{"path":"src/a.rs"}"#);
    assert_eq!(tool_location(Some(&relative), "/work").as_deref(), Some("/work/src/a.rs"));
    let absolute = parse(r#"{"path":"/etc/hosts"}"#);
    assert_eq!(tool_location(Some(&absolute), "/work").as_deref(), Some("/etc/hosts"));
    assert!(tool_location(Some(&parse("{}")), "/work").is_none());
    assert!(tool_location(None, "/work").is_none());
}

#[test]
fn transcripts_are_replayed_in_order() {
    let messages = parse(
        r#"{"messages":[
            {"role":"user","content":"hello"},
            {"role":"assistant","content":[{"type":"text","text":"a"},{"type":"image"},{"type":"text","text":"b"}]},
            {"role":"assistant","content":[]},
            {"role":"toolResult","content":[{"type":"text","text":"c"}]}
        ]}"#,
    );
    let updates = wires(message_history_updates(&messages));
    let told: Vec<(&str, &str)> = updates
        .iter()
        .map(|u| (u.str_at("sessionUpdate").unwrap(), u.str_in("content", "text").unwrap()))
        .collect();
    assert_eq!(
        told,
        vec![
            ("user_message_chunk", "hello"),
            ("agent_message_chunk", "ab"),
            ("agent_message_chunk", "c")
        ]
    );
    assert!(message_history_updates(&parse("{}")).unwrap().is_empty());
}
