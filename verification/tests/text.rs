use pi_acp::text::{copy_texts, join, same_text, title_case};

fn owned(list: &[&str]) -> Vec<String> {
    list.iter().map(|text| (*text).to_owned()).collect()
}

#[test]
fn title_case_raises_the_first_letter_only() {
    assert_eq!(title_case("medium"), "Medium");
    assert_eq!(title_case("xhigh"), "Xhigh");
    assert_eq!(title_case(""), "");
    assert_eq!(title_case("éclair"), "Éclair");
    assert_eq!(title_case("ßharp"), "SSharp");
}

#[test]
fn join_puts_the_separator_between() {
    assert_eq!(join(&owned(&[]), "\n\n"), "");
    assert_eq!(join(&owned(&["a"]), "\n\n"), "a");
    assert_eq!(join(&owned(&["a", "", "b"]), "\n\n"), "a\n\n\n\nb");
}

#[test]
fn same_text_compares_characters() {
    assert!(same_text("abc", "abc"));
    assert!(!same_text("abc", "abd"));
    assert!(!same_text("", "a"));
}

#[test]
fn copy_texts_copies() {
    assert_eq!(copy_texts(&owned(&["x", "y"])), owned(&["x", "y"]));
}
