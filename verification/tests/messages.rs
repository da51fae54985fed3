use meowww::message::{frame_payload, Message, NICKNAME_LIMIT};
use meowww::text::{is_blank, truncate};

fn message(nickname: &str, content: &str) -> Message {
    Message::new(nickname.to_string(), content.to_string())
}

#[test]
fn blank_texts_are_recognised() {
    assert!(is_blank(""));
    assert!(is_blank(" "));
    assert!(is_blank(" \t\r\n"));
    assert!(is_blank("\u{a0}\u{2003}\u{3000}"));
    assert!(!is_blank("a"));
    assert!(!is_blank("  a  "));
    assert!(!is_blank("\u{200b}"));
}

#[test]
fn blank_agrees_with_trim() {
    for s in ["", " ", "x", " x", "x ", "\n\n", "\u{85}", "é", " \u{feff} "] {
        assert_eq!(is_blank(s), s.trim().is_empty(), "{:?}", s);
    }
}

#[test]
fn truncate_keeps_short_texts() {
    assert_eq!(truncate("", 30), "");
    assert_eq!(truncate("abc", 30), "abc");
    assert_eq!(truncate("abc", 3), "abc");
    assert_eq!(truncate("abc", 2), "ab");
    assert_eq!(truncate("abc", 0), "");
}

#[test]
fn truncate_counts_characters_not_bytes() {
    assert_eq!(truncate("héllo", 2), "hé");
    assert_eq!(truncate("日本語のテキスト", 3), "日本語");
    assert_eq!(truncate("a😀b😀c", 4), "a😀b😀");
}

#[test]
fn degenerate_messages_are_refused() {
    assert!(message(" ", "hello").is_degenerate());
    assert!(message("bob", "").is_degenerate());
    assert!(message("", "").is_degenerate());
    assert!(message("\t", "\n").is_degenerate());
    assert!(!message("bob", "hello").is_degenerate());
    assert_eq!(message(" ", "hello").accept(), None);
    assert_eq!(message("bob", "   ").accept(), None);
}

#[test]
fn accepted_message_is_not_trimmed() {
    assert_eq!(message(" bob ", " hi "), message(" bob ", " hi ").accept().unwrap());
}

#[test]
fn nickname_of_forty_characters_is_cut_to_thirty() {
    let long: String = "ab€😀é".chars().cycle().take(40).collect();
    assert_eq!(long.chars().count(), 40);
    let kept = message(&long, "hi").accept().unwrap();
    assert_eq!(kept.nickname.chars().count(), 30);
    assert_eq!(NICKNAME_LIMIT, 30);
    let expected: String = long.chars().take(30).collect();
    assert_eq!(kept.nickname, expected);
    assert!(long.starts_with(&kept.nickname));
    assert_eq!(kept.content, "hi");
}

#[test]
fn nickname_of_thirty_characters_is_kept() {
    let exact: String = "é".repeat(30);
    let kept = message(&exact, "x").accept().unwrap();
    assert_eq!(kept.nickname, exact);
}

#[test]
fn content_is_never_cut() {
    let content = "x".repeat(500);
    let kept = message("bob", &content).accept().unwrap();
    assert_eq!(kept.content, content);
}

#[test]
fn duplicate_reads_the_same() {
    let m = message("bob", "hello");
    assert_eq!(m.duplicate(), m);
}

#[test]
fn payload_is_a_json_object() {
    assert_eq!(
        message("a", "hi").payload().unwrap(),
        "{\"nickname\":\"a\",\"content\":\"hi\"}"
    );
}

#[test]
fn payload_escapes_its_strings() {
    assert_eq!(
        message("a\"b", "line\nbreak \\ é").payload().unwrap(),
        "{\"nickname\":\"a\\\"b\",\"content\":\"line\\nbreak \\\\ é\"}"
    );
}

#[test]
fn payload_reads_back_with_serde_json() {
    let m = message("Zoé \"the cat\"", "tab\there <b>&</b> \u{1}");
    let value: serde_json::Value = serde_json::from_str(&m.payload().unwrap()).unwrap();
    assert_eq!(value["nickname"].as_str().unwrap(), m.nickname);
    assert_eq!(value["content"].as_str().unwrap(), m.content);
    assert_eq!(value.as_object().unwrap().len(), 2);
}

#[test]
fn frame_payload_concatenates() {
    assert_eq!(frame_payload("N", "C"), "{\"nickname\":N,\"content\":C}");
    assert_eq!(frame_payload("", ""), "{\"nickname\":,\"content\":}");
}
