use gitcmd::input_parser::is_setup_command;
use gitcmd::input_parser::split_commands;
use gitcmd::input_parser::strip_git_prefix;
use gitcmd::input_parser::tokenize_args;
use gitcmd::keys::decode_keys;
use gitcmd::keys::Key;
use gitcmd::shell::dedup_consecutive;
use gitcmd::shell::is_clear_command;
use gitcmd::shell::is_exit_command;
use gitcmd::text::split_char;
use gitcmd::text::trim_str;

#[test]
fn printable_bytes_decode_to_themselves() {
    let bytes: Vec<u8> = b"git".to_vec();
    assert_eq!(
        decode_keys(&bytes),
        vec![Key::Printable('g'), Key::Printable('i'), Key::Printable('t')]
    );
}

#[test]
fn enter_backspace_and_interrupt_bytes_decode() {
    let bytes: Vec<u8> = vec![0x0d, 0x0a, 0x7f, 0x03];
    assert_eq!(
        decode_keys(&bytes),
        vec![Key::Enter, Key::Enter, Key::Backspace, Key::Interrupt]
    );
}

#[test]
fn arrow_escape_sequences_decode() {
    let bytes: Vec<u8> = b"\x1b[A\x1b[B\x1b[C\x1b[D".to_vec();
    assert_eq!(
        decode_keys(&bytes),
        vec![Key::ArrowUp, Key::ArrowDown, Key::ArrowRight, Key::ArrowLeft]
    );
}

#[test]
fn unknown_sequences_decode_to_other() {
    assert_eq!(decode_keys(&b"\x1b[Z".to_vec()), vec![Key::Other]);
    assert_eq!(decode_keys(&b"\x1bx".to_vec()), vec![Key::Other]);
    assert_eq!(decode_keys(&b"\x1b".to_vec()), vec![Key::Other]);
    assert_eq!(decode_keys(&b"\x1b[".to_vec()), vec![Key::Other]);
    assert_eq!(decode_keys(&vec![0x01u8]), vec![Key::Other]);
    assert_eq!(decode_keys(&vec![0xc3u8, 0xa9]), vec![Key::Other, Key::Other]);
}

#[test]
fn a_mixed_byte_stream_decodes_in_order() {
    let bytes: Vec<u8> = b"a\x1b[Db\r".to_vec();
    assert_eq!(
        decode_keys(&bytes),
        vec![
            Key::Printable('a'),
            Key::ArrowLeft,
            Key::Printable('b'),
            Key::Enter
        ]
    );
}

#[test]
fn plain_words_tokenize_on_whitespace() {
    assert_eq!(tokenize_args("add -A"), vec!["add", "-A"]);
    assert_eq!(tokenize_args("  status  "), vec!["status"]);
    assert_eq!(tokenize_args(""), Vec::<String>::new());
    assert_eq!(tokenize_args("   "), Vec::<String>::new());
}

#[test]
fn quoted_pieces_are_single_arguments() {
    assert_eq!(
        tokenize_args("commit -m \"first commit\""),
        vec!["commit", "-m", "first commit"]
    );
    assert_eq!(tokenize_args("\"\""), vec![""]);
}

#[test]
fn an_unclosed_quote_is_a_plain_token_without_outer_quotes() {
    assert_eq!(tokenize_args("\"abc"), vec!["abc"]);
    assert_eq!(tokenize_args("ab\"cd"), vec!["ab\"cd"]);
}

#[test]
fn lines_split_on_and_and() {
    assert_eq!(split_commands("add -A && commit"), vec!["add -A", "commit"]);
    assert_eq!(split_commands("status"), vec!["status"]);
    assert_eq!(split_commands("a&&b&&c"), vec!["a", "b", "c"]);
    assert_eq!(split_commands("a &&"), vec!["a", ""]);
}

#[test]
fn the_git_prefix_is_stripped_once() {
    assert_eq!(strip_git_prefix("git status"), ("status".to_string(), true));
    assert_eq!(strip_git_prefix("status"), ("status".to_string(), false));
    assert_eq!(strip_git_prefix("gi"), ("gi".to_string(), false));
    assert_eq!(
        strip_git_prefix("git git log"),
        ("git log".to_string(), true)
    );
}

#[test]
fn only_the_bare_word_setup_starts_the_wizard() {
    assert!(is_setup_command(&vec!["setup".to_string()]));
    assert!(!is_setup_command(&vec!["setup".to_string(), "x".to_string()]));
    assert!(!is_setup_command(&vec!["status".to_string()]));
    assert!(!is_setup_command(&Vec::new()));
}

#[test]
fn exit_and_quit_end_the_session() {
    assert!(is_exit_command("exit"));
    assert!(is_exit_command("  quit "));
    assert!(!is_exit_command("exit now"));
    assert!(!is_exit_command(""));
}

#[test]
fn clear_and_cls_clear_the_screen() {
    assert!(is_clear_command("clear"));
    assert!(is_clear_command(" cls"));
    assert!(!is_clear_command("clean"));
}

#[test]
fn consecutive_repeats_leave_the_history() {
    let mut v = vec![
        "a".to_string(),
        "a".to_string(),
        "b".to_string(),
        "b".to_string(),
        "b".to_string(),
        "a".to_string(),
    ];
    dedup_consecutive(&mut v);
    assert_eq!(v, vec!["a".to_string(), "b".to_string(), "a".to_string()]);
}

#[test]
fn dedup_keeps_a_history_without_repeats() {
    let mut v = vec!["a".to_string(), "b".to_string()];
    dedup_consecutive(&mut v);
    assert_eq!(v, vec!["a".to_string(), "b".to_string()]);
    let mut empty: Vec<String> = Vec::new();
    dedup_consecutive(&mut empty);
    assert!(empty.is_empty());
}

#[test]
fn trimming_removes_only_outer_whitespace() {
    assert_eq!(trim_str("  a b \t"), "a b");
    assert_eq!(trim_str(""), "");
    assert_eq!(trim_str(" \r\n"), "");
}

#[test]
fn splitting_keeps_empty_pieces() {
    assert_eq!(split_char("1,2,3", ','), vec!["1", "2", "3"]);
    assert_eq!(split_char("a,,b", ','), vec!["a", "", "b"]);
    assert_eq!(split_char("", ','), vec![""]);
    assert_eq!(split_char("x,", ','), vec!["x", ""]);
}
