use ai_gateway::input::Input;
use ai_gateway::message::MessageRole;
use ai_gateway::utils::{
    count_tokens, create_abort_signal, extract_block, sha256sum, validate_integer,
};

fn s(text: &str) -> String {
    String::from(text)
}

#[test]
fn extract_block_takes_the_fenced_body() {
    assert_eq!(extract_block("```rust\nlet x = 1;\n```"), "let x = 1;");
    assert_eq!(extract_block("before\n```\ncode\n```\nafter"), "code");
    assert_eq!(extract_block("  no block here  "), "no block here");
    assert_eq!(extract_block("``````"), "``````");
    assert_eq!(extract_block("say ```a``` or ```b```"), "``` or ```b");
}

#[test]
fn sha256sum_spells_the_known_digest() {
    assert_eq!(
        sha256sum(""),
        "e3b0c44298fc1c149afbf4c8996fb92427ae41e4649b934ca495991b7852b855"
    );
    assert_eq!(
        sha256sum("abc"),
        "ba7816bf8f01cfea414140de5dae2223b00361a396177a9cb410ff61f20015ad"
    );
}

#[test]
fn token_counts_are_stable_and_grow_with_text() {
    assert_eq!(count_tokens(""), 0);
    let one = count_tokens("hello");
    assert!(one >= 1);
    assert_eq!(one, count_tokens("hello"));
    assert!(count_tokens("hello hello hello hello") > one);
}

#[test]
fn integers_validate() {
    assert!(validate_integer("42"));
    assert!(validate_integer("-7"));
    assert!(!validate_integer("4.2"));
    assert!(!validate_integer("x"));
    assert!(!validate_integer(""));
}

#[test]
fn abort_signal_flags_round_trip() {
    let abort = create_abort_signal();
    assert!(!abort.aborted());
    abort.set_ctrlc();
    assert!(abort.aborted());
    assert!(abort.aborted_ctrlc());
    assert!(!abort.aborted_ctrld());
    abort.reset();
    assert!(!abort.aborted());
    abort.set_ctrld();
    assert!(abort.aborted_ctrld());
}

#[test]
fn summary_passes_short_text_through() {
    let input = Input::new(Some(s("  a short\tline\u{1} ")), None, None);
    assert_eq!(input.summary(), "a short line ");
    let empty = Input::new(None, None, None);
    assert_eq!(empty.summary(), "");
}

#[test]
fn summary_cuts_wide_text_with_an_ellipsis() {
    let wide: String = std::iter::repeat('\u{4f60}').take(40).collect();
    let input = Input::new(Some(wide.clone()), None, None);
    let cut = input.summary();
    let expected: String = wide.chars().take(33).collect::<String>() + "...";
    assert_eq!(cut, expected);
}

#[test]
fn input_accessors_reflect_the_parts() {
    let input = Input::from_str("hello");
    assert!(!input.is_empty());
    assert!(!input.history_exists());
    assert!(!input.function_calls_exists());
    assert_eq!(input.render(), "hello");
    assert_eq!(input.to_message(), "hello");
    assert!(input.required_capabilities().text);
    assert!(!input.required_capabilities().vision);
    let roles = ai_gateway::message::Message::new_text(MessageRole::User, "x");
    assert_eq!(roles, ai_gateway::message::Message::user("x"));
}

#[test]
fn messages_describe_themselves() {
    let m = ai_gateway::message::Message::function_return(Some(s("t1")), "f", "42");
    assert_eq!(m.describe(), "[function] Function Return - ID: t1, Name: f, Content: 42");
    let plain = ai_gateway::message::Message::assistant("hi");
    assert_eq!(plain.describe(), "[assistant] Plain Text: hi");
}

#[test]
fn message_records_render_with_heading_and_rules() {
    let record = ai_gateway::message::render_message_record("ask", "2024-01-01", "# in", "out");
    assert_eq!(record, "# CHAT: ask [2024-01-01]\n# in\n--------\nout\n--------\n\n");
}

#[test]
fn roles_answer_their_kind() {
    assert!(MessageRole::System.is_system());
    assert!(MessageRole::User.is_user());
    assert!(MessageRole::Assistant.is_assistant());
    assert!(MessageRole::Function.is_function());
    assert!(!MessageRole::User.is_system());
    assert_eq!(MessageRole::Assistant.as_text(), "assistant");
}
