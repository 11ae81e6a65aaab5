use pi_acp::json::Json;
use pi_acp::options::{commands, config_options, mode_state, Category, Choices};

fn parse(text: &str) -> Json {
    Json::parse(text.as_bytes()).unwrap()
}

fn models() -> Json {
    parse(
        r#"{"models":[
            {"provider":"openai","id":"gpt-5","name":"GPT-5"},
            {"provider":"acme","id":"nova","description":"good"},
            {"provider":"openai","id":"gpt-4"},
            {"provider":"broken"},
            {"id":"lost"}
        ]}"#,
    )
}

#[test]
fn own_commands_come_first_and_no_name_twice() {
    let value = parse(
        r#"{"commands":[{"name":"compact","description":"other"},{"name":"deploy"},{"description":"x"},{"name":"deploy"},{"name":"plan","description":"Plan it"}]}"#,
    );
    let list = commands(&value);
    let names: Vec<&str> = list.iter().map(|c| c.name.as_str()).collect();
    assert_eq!(
        names,
        vec!["compact", "session", "name", "steering", "follow-up", "export", "deploy", "plan"]
    );
    assert_eq!(list[0].description, "Compact the session context");
    assert_eq!(list[6].description, "Pi command");
    assert_eq!(list[7].description, "Plan it");
    assert_eq!(commands(&parse("{}")).len(), 6);
}

#[test]
fn models_are_grouped_by_provider_in_order() {
    let state = parse(
        r#"{"model":{"provider":"openai","id":"gpt-5","reasoning":true},"thinkingLevel":"medium"}"#,
    );
    let options = config_options(&state, &models());
    assert_eq!(options.len(), 2);
    assert_eq!(options[0].id, "model");
    assert_eq!(options[0].name, "Model");
    assert_eq!(options[0].current, "openai/gpt-5");
    assert!(options[0].category == Category::Model);
    match &options[0].choices {
        Choices::Grouped(groups) => {
            let names: Vec<&str> = groups.iter().map(|g| g.name.as_str()).collect();
            assert_eq!(names, vec!["acme", "openai"]);
            assert_eq!(groups[0].choices[0].value, "acme/nova");
            assert_eq!(groups[0].choices[0].name, "nova");
            assert_eq!(groups[0].choices[0].description.as_deref(), Some("good"));
            let values: Vec<&str> = groups[1].choices.iter().map(|c| c.value.as_str()).collect();
            assert_eq!(values, vec!["openai/gpt-5", "openai/gpt-4"]);
            assert_eq!(groups[1].choices[0].name, "GPT-5");
        }
        Choices::Flat(_) => panic!("not grouped"),
    }
}

#[test]
fn thinking_levels_are_offered_where_the_model_reasons() {
    let state = parse(r#"{"model":{"reasoning":true},"thinkingLevel":"high"}"#);
    let options = config_options(&state, &parse("{}"));
    assert_eq!(options.len(), 1);
    assert_eq!(options[0].id, "thought_level");
    assert_eq!(options[0].name, "Thinking");
    assert_eq!(options[0].current, "high");
    assert!(options[0].category == Category::ThoughtLevel);
    match &options[0].choices {
        Choices::Flat(list) => {
            let values: Vec<&str> = list.iter().map(|c| c.value.as_str()).collect();
            assert_eq!(values, vec!["off", "minimal", "low", "medium", "high", "xhigh", "max"]);
            assert_eq!(list[1].name, "Minimal");
        }
        Choices::Grouped(_) => panic!("grouped"),
    }
    let modes = mode_state(&state);
    assert_eq!(modes.current, "high");
    assert_eq!(modes.modes.len(), 7);
    assert_eq!(modes.modes[3].id, "medium");
    assert_eq!(modes.modes[3].name, "Thinking: Medium");
}

#[test]
fn a_model_that_does_not_reason_has_one_level() {
    let modes = mode_state(&parse("{}"));
    assert_eq!(modes.current, "off");
    assert_eq!(modes.modes.len(), 1);
    assert_eq!(modes.modes[0].id, "off");
}
