use pi_acp::commands::{
    make_level_command, make_option_command, make_prompt_command, nonempty, pretty_result,
    slash_command,
};
use pi_acp::json::Json;

fn parse(text: &str) -> Json {
    Json::parse(text.as_bytes()).unwrap()
}

fn slash(prompt: &str) -> (String, Option<String>) {
    let slash = slash_command(prompt).unwrap();
    (slash.command.display(), slash.output)
}

#[test]
fn slash_commands_become_commands_of_pi() {
    assert_eq!(
        slash("/compact  focus on tests "),
        (r#"{"type":"compact","customInstructions":"focus on tests"}"#.to_owned(), None)
    );
    assert_eq!(
        slash("  /compact"),
        (r#"{"type":"compact","customInstructions":null}"#.to_owned(), None)
    );
    assert_eq!(slash("/session now"), (r#"{"type":"get_session_stats"}"#.to_owned(), None));
    assert_eq!(
        slash("/name My Session"),
        (
            r#"{"type":"set_session_name","name":"My Session"}"#.to_owned(),
            Some("Session name updated.".to_owned())
        )
    );
    assert_eq!(
        slash("/steering"),
        (
            r#"{"type":"set_steering_mode","mode":"one-at-a-time"}"#.to_owned(),
            Some("Steering mode updated.".to_owned())
        )
    );
    assert_eq!(
        slash("/follow-up all"),
        (
            r#"{"type":"set_follow_up_mode","mode":"all"}"#.to_owned(),
            Some("Follow-up mode updated.".to_owned())
        )
    );
    assert_eq!(
        slash("/export out.html"),
        (r#"{"type":"export_html","outputPath":"out.html"}"#.to_owned(), None)
    );
}

#[test]
fn other_prompts_are_for_pi() {
    assert!(slash_command("compact").is_none());
    assert!(slash_command("/deploy now").is_none());
    assert!(slash_command("/compact\nfocus").is_none());
    assert!(slash_command("/").is_none());
    assert!(slash_command("").is_none());
}

#[test]
fn only_text_that_is_left_is_kept() {
    assert_eq!(nonempty("  x "), Some("x"));
    assert_eq!(nonempty("\u{2003}"), None);
    assert_eq!(nonempty(""), None);
}

#[test]
fn answers_are_made_readable() {
    assert_eq!(pretty_result(&parse(r#"{"path":"/a","summary":"s"}"#)), "Exported session to /a");
    assert_eq!(pretty_result(&parse(r#"{"summary":"s"}"#)), "s");
    assert_eq!(pretty_result(&parse(r#"{"cost":1}"#)), "{\n  \"cost\": 1\n}");
    assert_eq!(pretty_result(&parse("null")), "null");
}

#[test]
fn options_become_commands_of_pi() {
    assert_eq!(
        make_option_command("model", "openai/gpt-5/mini").unwrap().display(),
        r#"{"type":"set_model","provider":"openai","modelId":"gpt-5/mini"}"#
    );
    assert!(make_option_command("model", "gpt-5").is_none());
    assert_eq!(
        make_option_command("thought_level", "high").unwrap().display(),
        r#"{"type":"set_thinking_level","level":"high"}"#
    );
    assert!(make_option_command("colour", "red").is_none());
    assert_eq!(
        make_level_command("low").display(),
        r#"{"type":"set_thinking_level","level":"low"}"#
    );
}

#[test]
fn a_prompt_carries_its_images() {
    assert_eq!(
        make_prompt_command("hi", vec![parse("{}")]).display(),
        r#"{"type":"prompt","message":"hi","images":[{}]}"#
    );
}
