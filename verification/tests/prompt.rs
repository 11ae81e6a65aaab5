use pi_acp::json::Json;
use pi_acp::prompt::{embedded_text, prompt_to_pi, Block};
use pi_acp::requests::{decode_request, Request};

fn parse(text: &str) -> Json {
    Json::parse(text.as_bytes()).unwrap()
}

fn blocks(prompt: &str) -> Vec<Block> {
    let params = parse(&format!(r#"{{"sessionId":"s","prompt":{prompt}}}"#));
    match decode_request("session/prompt", Some(params)) {
        Ok(Request::Prompt { session_id, blocks }) => {
            assert_eq!(session_id, "s");
            blocks
        }
        _ => panic!("not a prompt"),
    }
}

#[test]
fn texts_are_joined_by_empty_lines() {
    let (message, images) =
        prompt_to_pi(&blocks(r#"[{"type":"text","text":"a"},{"type":"text","text":"b"}]"#)).unwrap();
    assert_eq!(message, "a\n\nb");
    assert!(images.is_empty());
}

#[test]
fn images_stand_beside_the_message() {
    let list = blocks(
        r#"[{"type":"image","data":"AAAA","mimeType":"image/png"},{"type":"text","text":"look"}]"#,
    );
    let (message, images) = prompt_to_pi(&list).unwrap();
    assert_eq!(message, "look");
    assert_eq!(
        images[0].display(),
        r#"{"type":"image","data":"AAAA","mimeType":"image/png"}"#
    );
}

#[test]
fn links_and_resources_become_text() {
    let list = blocks(
        r#"[{"type":"resource_link","name":"doc","uri":"file:///d"},
            {"type":"resource","resource":{"uri":"file:///a","text":"inside"}},
            {"type":"resource","resource":{"uri":"file:///b","blob":"AA=="}}]"#,
    );
    let (message, _) = prompt_to_pi(&list).unwrap();
    assert_eq!(
        message,
        "[Resource: doc](file:///d)\n\n<context>\ninside\n</context>\n\n<context>\nfile:///b\n</context>"
    );
}

#[test]
fn sound_is_refused() {
    let list = blocks(
        r#"[{"type":"text","text":"a"},{"type":"audio","data":"AA==","mimeType":"audio/wav"}]"#,
    );
    assert_eq!(prompt_to_pi(&list).err().unwrap(), "Pi does not support audio prompt content");
    assert_eq!(
        prompt_to_pi(&vec![Block::Other]).err().unwrap(),
        "unsupported ACP prompt content"
    );
    assert_eq!(
        prompt_to_pi(&vec![Block::Other, Block::Audio]).err().unwrap(),
        "unsupported ACP prompt content"
    );
}

#[test]
fn an_empty_prompt_is_an_empty_message() {
    let (message, images) = prompt_to_pi(&Vec::new()).unwrap();
    assert_eq!(message, "");
    assert!(images.is_empty());
}

#[test]
fn the_text_of_a_resource_comes_before_its_place() {
    assert_eq!(embedded_text(&parse(r#"{"resource":{"text":"t","uri":"u"}}"#)), "t");
    assert_eq!(embedded_text(&parse(r#"{"text":"own","resource":{"uri":"u"}}"#)), "own");
    assert_eq!(embedded_text(&parse(r#"{"resource":{"uri":"u"}}"#)), "u");
    assert_eq!(embedded_text(&parse("{}")), "");
}
