use rustirc::commands::{
    cmd_join, cmd_msg, cmd_part, cmd_quit, cmd_raw, parse_line, parse_word, Command,
};

fn s(x: &str) -> String {
    x.to_string()
}

#[test]
fn msg_with_text_gives_one_command() {
    assert_eq!(
        parse_line("/msg #chan hello there"),
        Some(Command::Msg { dst: s("#chan"), text: s("hello there") })
    );
}

#[test]
fn msg_without_text_gives_nothing() {
    assert_eq!(parse_line("/msg #chan"), None);
    assert_eq!(parse_line("/msg"), None);
}

#[test]
fn join_with_key() {
    assert_eq!(
        parse_line("/join #a,#b secret"),
        Some(Command::Join { chans: s("#a,#b"), keys: Some(s("secret")) })
    );
}

#[test]
fn join_alone_gives_nothing() {
    assert_eq!(parse_line("/join"), None);
}

#[test]
fn join_without_key() {
    assert_eq!(parse_line("/join #rust"), Some(Command::Join { chans: s("#rust"), keys: None }));
}

#[test]
fn part_with_and_without_message() {
    assert_eq!(
        parse_line("/part #a bye all"),
        Some(Command::Part { chans: s("#a"), msg: Some(s("bye all")) })
    );
    assert_eq!(parse_line("/part #a"), Some(Command::Part { chans: s("#a"), msg: None }));
    assert_eq!(parse_line("/part"), None);
}

#[test]
fn quit_message_is_optional() {
    assert_eq!(parse_line("/quit"), Some(Command::Quit { msg: None }));
    assert_eq!(parse_line("/quit   see you"), Some(Command::Quit { msg: Some(s("see you")) }));
}

#[test]
fn raw_keeps_the_text() {
    assert_eq!(
        parse_line("/raw PRIVMSG #a :hi"),
        Some(Command::Raw { text: s("PRIVMSG #a :hi") })
    );
}

#[test]
fn reload_ignores_the_rest() {
    assert_eq!(parse_line("/reload"), Some(Command::Reload));
    assert_eq!(parse_line("/reload now"), Some(Command::Reload));
}

#[test]
fn line_ends_are_stripped() {
    assert_eq!(
        parse_line("/msg bob hi\r\n"),
        Some(Command::Msg { dst: s("bob"), text: s("hi") })
    );
    assert_eq!(parse_line("/reload\n"), Some(Command::Reload));
}

#[test]
fn lines_without_slash_or_unknown_are_ignored() {
    assert_eq!(parse_line("msg #a hi"), None);
    assert_eq!(parse_line(""), None);
    assert_eq!(parse_line("/"), None);
    assert_eq!(parse_line("/dance #a"), None);
    assert_eq!(parse_line("/MSG #a hi"), None);
}

#[test]
fn parse_word_skips_leading_white_space() {
    assert_eq!(parse_word("  \tfirst second third"), ("first", "second third"));
    assert_eq!(parse_word("alone"), ("alone", ""));
    assert_eq!(parse_word("   "), ("", ""));
}

#[test]
fn command_builders() {
    assert_eq!(cmd_msg("  dst text"), Some(Command::Msg { dst: s("dst"), text: s("text") }));
    assert_eq!(cmd_msg("dst "), None);
    assert_eq!(cmd_join("#x   k1,k2"), Some(Command::Join { chans: s("#x"), keys: Some(s("k1,k2")) }));
    assert_eq!(cmd_part("  "), None);
    assert_eq!(cmd_quit(""), Some(Command::Quit { msg: None }));
    assert_eq!(cmd_raw(" x"), Some(Command::Raw { text: s(" x") }));
}
