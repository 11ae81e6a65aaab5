use pi_acp::json::Json;
use pi_acp::pi_rpc::{
    command_timed_out, make_plain_command, read_failed, response_lost, spawn_arguments, PiEvent,
    PiOutput, PiProcess, MAX_RPC_LINE_BYTES,
};

fn parse(text: &str) -> Json {
    Json::parse(text.as_bytes()).unwrap()
}

fn owned(list: &[&str]) -> Vec<String> {
    list.iter().map(|text| (*text).to_owned()).collect()
}

fn pi() -> PiProcess {
    PiProcess::new("/work".to_owned())
}

fn show(output: &PiOutput) -> String {
    match output {
        PiOutput::Reply { id, result: Ok(value) } => format!("{id} ok {}", value.display()),
        PiOutput::Reply { id, result: Err(text) } => format!("{id} err {text}"),
        PiOutput::Event(PiEvent::Message(value)) => format!("event {}", value.display()),
        PiOutput::Event(PiEvent::Exited(text)) => format!("exit {text}"),
    }
}

fn shown(outputs: &[PiOutput]) -> Vec<String> {
    outputs.iter().map(show).collect()
}

#[test]
fn pi_is_started_with_its_session_and_prompts() {
    assert_eq!(
        spawn_arguments(
            "/state/pi-sessions",
            Some("/s.jsonl"),
            &owned(&["one", "two"]),
            &owned(&["--x", "y"])
        ),
        owned(&[
            "--mode",
            "rpc",
            "--no-themes",
            "--session-dir",
            "/state/pi-sessions",
            "--session",
            "/s.jsonl",
            "--append-system-prompt",
            "one",
            "--append-system-prompt",
            "two",
            "--x",
            "y"
        ])
    );
    assert_eq!(
        spawn_arguments("/d", None, &owned(&[]), &owned(&[])),
        owned(&["--mode", "rpc", "--no-themes", "--session-dir", "/d"])
    );
}

#[test]
fn commands_are_numbered() {
    let mut pi = pi();
    let (id, record) = pi.get_state().unwrap();
    assert_eq!(id, "pi-acp-1");
    assert_eq!(record, b"{\"type\":\"get_state\",\"id\":\"pi-acp-1\"}\n");
    assert_eq!(pi.get_models().unwrap().1, b"{\"type\":\"get_available_models\",\"id\":\"pi-acp-2\"}\n");
    assert_eq!(pi.get_commands().unwrap().1, b"{\"type\":\"get_commands\",\"id\":\"pi-acp-3\"}\n");
    assert_eq!(pi.abort().unwrap().1, b"{\"type\":\"abort\",\"id\":\"pi-acp-4\"}\n");
    let (id, record) = pi.command(parse(r#"{"id":"mine","type":"x"}"#)).unwrap();
    assert_eq!(id, "pi-acp-5");
    assert_eq!(record, b"{\"id\":\"pi-acp-5\",\"type\":\"x\"}\n");
}

#[test]
fn a_command_has_to_be_an_object() {
    let mut pi = pi();
    assert_eq!(pi.command(parse("[1]")).err().unwrap(), "Pi RPC command must be an object");
    assert_eq!(pi.get_state().unwrap().0, "pi-acp-2");
}

#[test]
fn a_closed_process_takes_no_commands() {
    let mut pi = pi();
    assert!(!pi.is_closed());
    assert!(pi.close());
    assert!(!pi.close());
    assert!(pi.is_closed());
    assert_eq!(pi.get_state().err().unwrap(), "Pi process is closed");
}

#[test]
fn a_command_that_is_too_long_is_not_given() {
    let mut pi = pi();
    let long = Json::object().with("type", Json::text(&"x".repeat(MAX_RPC_LINE_BYTES)));
    assert_eq!(pi.command(long).err().unwrap(), "Pi RPC record exceeded 16777216 bytes");
    let late = pi.receive(b"{\"type\":\"response\",\"id\":\"pi-acp-1\",\"success\":true}\n");
    assert!(matches!(late.outputs[0], PiOutput::Event(_)));
}

#[test]
fn a_response_goes_to_its_command_once() {
    let mut pi = pi();
    pi.get_state().unwrap();
    let line = b"{\"type\":\"response\",\"id\":\"pi-acp-1\",\"success\":true,\"data\":{\"a\":1}}\n";
    let first = pi.receive(line);
    assert!(!first.ended);
    assert_eq!(shown(&first.outputs), vec!["pi-acp-1 ok {\"a\":1}"]);
    let second = pi.receive(line);
    assert_eq!(
        shown(&second.outputs),
        vec!["event {\"type\":\"response\",\"id\":\"pi-acp-1\",\"success\":true,\"data\":{\"a\":1}}"]
    );
}

#[test]
fn failures_and_missing_data_are_told() {
    let mut pi = pi();
    for _ in 0..3 {
        pi.get_state().unwrap();
    }
    let got = pi.receive(
        b"{\"type\":\"response\",\"id\":\"pi-acp-1\",\"success\":false,\"error\":\"no\"}\n\
          {\"type\":\"response\",\"id\":\"pi-acp-2\"}\n\
          {\"type\":\"response\",\"id\":\"pi-acp-3\",\"success\":true}\n",
    );
    assert_eq!(
        shown(&got.outputs),
        vec![
            "pi-acp-1 err Pi RPC command failed: no",
            "pi-acp-2 err Pi RPC command failed: unknown error",
            "pi-acp-3 ok null"
        ]
    );
}

#[test]
fn events_and_broken_lines_go_to_all_that_listen() {
    let mut pi = pi();
    let got = pi.receive(b"\r\n{\"type\":\"agent_end\"}\r\nnot json\n{\"half\"");
    assert_eq!(
        shown(&got.outputs),
        vec![
            "event {\"type\":\"agent_end\"}",
            "exit invalid Pi RPC JSON: expected ident at line 1 column 2"
        ]
    );
    assert_eq!(shown(&pi.receive(b":1}\n").outputs), vec!["event {\"half\":1}"]);
}

#[test]
fn chunks_do_not_change_what_is_heard() {
    let stream = b"{\"type\":\"response\",\"id\":\"pi-acp-1\",\"success\":true}\n{\"type\":\"e\"}\n";
    for cut in 0..stream.len() {
        let mut pi = pi();
        pi.get_state().unwrap();
        let mut outputs = shown(&pi.receive(&stream[..cut]).outputs);
        outputs.extend(shown(&pi.receive(&stream[cut..]).outputs));
        assert_eq!(outputs, vec!["pi-acp-1 ok null", "event {\"type\":\"e\"}"]);
    }
}

#[test]
fn a_line_that_is_too_long_ends_the_process() {
    let mut pi = pi();
    let mut bytes = b"{\"type\":\"e\"}\n".to_vec();
    bytes.extend(vec![b'x'; MAX_RPC_LINE_BYTES + 1]);
    bytes.push(b'\n');
    let got = pi.receive(&bytes);
    assert!(got.ended);
    assert_eq!(
        shown(&got.outputs),
        vec!["event {\"type\":\"e\"}", "exit Pi RPC record exceeded 16777216 bytes"]
    );
}

#[test]
fn the_end_of_a_process_is_told_to_every_command() {
    let mut pi = pi();
    pi.get_state().unwrap();
    pi.get_models().unwrap();
    pi.forget("pi-acp-1");
    pi.get_commands().unwrap();
    let mut outputs = shown(&pi.finish());
    let last = outputs.pop().unwrap();
    outputs.sort();
    assert_eq!(
        outputs,
        vec![
            "pi-acp-2 err Pi process exited before completing pending commands",
            "pi-acp-3 err Pi process exited before completing pending commands"
        ]
    );
    assert_eq!(last, "exit Pi process exited before completing pending commands");
    assert!(pi.is_closed());
    assert_eq!(shown(&pi.finish()).len(), 1);
}

#[test]
fn the_queue_of_prompts_is_bounded() {
    let mut pi = pi();
    pi.admit_prompt(2).unwrap();
    pi.admit_prompt(2).unwrap();
    assert_eq!(
        pi.admit_prompt(2).err().unwrap(),
        "Pi prompt queue limit (2) reached; raise --max-queued-prompts to allow more"
    );
    assert_eq!(pi.queued(), 2);
    pi.release_prompt();
    assert_eq!(pi.queued(), 1);
    pi.admit_prompt(2).unwrap();
    assert!(pi.admit_prompt(0).is_err());
}

#[test]
fn messages_without_a_response_carry_no_number() {
    assert_eq!(
        PiProcess::message(&make_plain_command("extension_ui_response")).unwrap(),
        b"{\"type\":\"extension_ui_response\"}\n"
    );
    assert_eq!(
        PiProcess::message(&Json::text(&"x".repeat(MAX_RPC_LINE_BYTES))).err().unwrap(),
        "Pi RPC record exceeded 16777216 bytes"
    );
}

#[test]
fn late_lost_and_unreadable_responses_have_their_texts() {
    assert_eq!(command_timed_out(), "Pi RPC command timed out after 30s");
    assert_eq!(response_lost(), "Pi RPC command response channel closed");
    assert_eq!(show(&PiOutput::Event(read_failed("gone"))), "exit Pi RPC read failed: gone");
}
