use exchange_bot::command::{command_filter, extract_command};

#[test]
fn command_filter_ex_command() {
    assert_eq!(command_filter("/ec "), Some(("/ec", "")));
    assert_eq!(command_filter("/ec test"), Some(("/ec", "test")));
    assert_eq!(
        command_filter("/ec test other args"),
        Some(("/ec", "test other args"))
    );
}

#[test]
fn command_filter_ignore() {
    assert_eq!(command_filter("/ec"), None);
    assert_eq!(command_filter("/ectest"), None);
    assert_eq!(command_filter("/start"), None);
    assert_eq!(command_filter("/help"), None);
}

fn both_words() -> Vec<String> {
    vec!["/ex".to_string(), "/ec".to_string()]
}

#[test]
fn no_word_then_space_is_no_command() {
    let words = both_words();
    assert_eq!(extract_command("/extest", &words), None);
    assert_eq!(extract_command("/ex", &words), None);
    assert_eq!(extract_command("", &words), None);
    assert_eq!(extract_command(" /ex x", &words), None);
    assert_eq!(extract_command("/EX x", &words), None);
    assert_eq!(extract_command("/e x", &words), None);
}

#[test]
fn word_then_space_keeps_arguments_verbatim() {
    let words = both_words();
    assert_eq!(extract_command("/ex anything", &words), Some(("/ex", "anything")));
    assert_eq!(extract_command("/ec ", &words), Some(("/ec", "")));
    assert_eq!(extract_command("/ex   a b  ", &words), Some(("/ex", "  a b  ")));
    assert_eq!(extract_command("/ex\tUSD=TWD\n", &words), Some(("/ex", "USD=TWD\n")));
    assert_eq!(extract_command("/ec\u{3000}99USD", &words), Some(("/ec", "99USD")));
}

#[test]
fn no_words_registered_matches_nothing() {
    let words: Vec<String> = Vec::new();
    assert_eq!(extract_command("/ec USD=TWD", &words), None);
}
