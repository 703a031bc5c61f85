use rustirc::events::{LineCommand, User};
use rustirc::commands::Command;
use rustirc::wire::{command_line, keepalive_reply, parse_code, parse_user, parse_wire_line, split_words};

fn s(x: &str) -> String {
    x.to_string()
}

#[test]
fn words_and_trailing() {
    assert_eq!(split_words("PRIVMSG #a :hello there"), vec![s("PRIVMSG"), s("#a"), s("hello there")]);
    assert_eq!(split_words("  A  B "), vec![s("A"), s("B")]);
    assert_eq!(split_words(""), Vec::<String>::new());
    assert_eq!(split_words(":"), vec![s("")]);
}

#[test]
fn prefixes() {
    assert_eq!(
        parse_user("nick!user@host"),
        User { raw: s("nick!user@host"), nick: s("nick"), user: Some(s("user")), host: Some(s("host")) }
    );
    assert_eq!(
        parse_user("nick@host"),
        User { raw: s("nick@host"), nick: s("nick"), user: None, host: Some(s("host")) }
    );
    assert_eq!(
        parse_user("irc.example.net"),
        User { raw: s("irc.example.net"), nick: s("irc.example.net"), user: None, host: None }
    );
}

#[test]
fn numeric_codes() {
    assert_eq!(parse_code("001"), Some(1));
    assert_eq!(parse_code("433"), Some(433));
    assert_eq!(parse_code("01"), None);
    assert_eq!(parse_code("0a1"), None);
    assert_eq!(parse_code("PING"), None);
}

#[test]
fn welcome_line() {
    let l = parse_wire_line(":irc.example.net 001 bot :Welcome").unwrap();
    assert_eq!(l.command, LineCommand::Code(1));
    assert_eq!(l.args, vec![s("bot"), s("Welcome")]);
    assert_eq!(l.prefix.unwrap().nick, "irc.example.net");
}

#[test]
fn named_without_prefix() {
    let l = parse_wire_line("PING :token").unwrap();
    assert_eq!(l.command, LineCommand::Named(s("PING")));
    assert_eq!(l.args, vec![s("token")]);
    assert!(l.prefix.is_none());
}

#[test]
fn ctcp_action() {
    let l = parse_wire_line(":nick!user@host PRIVMSG #chan :\u{1}ACTION waves\u{1}").unwrap();
    assert_eq!(l.command, LineCommand::Action(s("#chan")));
    assert_eq!(l.args, vec![s("waves")]);
}

#[test]
fn ctcp_command_and_reply() {
    let l = parse_wire_line(":a!b@c PRIVMSG bot :\u{1}VERSION\u{1}").unwrap();
    assert_eq!(l.command, LineCommand::Ctcp(s("VERSION"), s("bot")));
    assert!(l.args.is_empty());
    let l = parse_wire_line(":a!b@c NOTICE bot :\u{1}PING 123\u{1}").unwrap();
    assert_eq!(l.command, LineCommand::CtcpReply(s("PING"), s("bot")));
    assert_eq!(l.args, vec![s("123")]);
}

#[test]
fn empty_lines_hold_no_command() {
    assert!(parse_wire_line("").is_none());
    assert!(parse_wire_line(":prefix.only").is_none());
    assert!(parse_wire_line("   ").is_none());
}

#[test]
fn commands_as_protocol_lines() {
    assert_eq!(command_line(&Command::Msg { dst: s("#a"), text: s("hi all") }), Some(s("PRIVMSG #a :hi all")));
    assert_eq!(command_line(&Command::Join { chans: s("#a,#b"), keys: Some(s("k")) }), Some(s("JOIN #a,#b k")));
    assert_eq!(command_line(&Command::Join { chans: s("#a"), keys: None }), Some(s("JOIN #a")));
    assert_eq!(command_line(&Command::Part { chans: s("#a"), msg: Some(s("bye")) }), Some(s("PART #a :bye")));
    assert_eq!(command_line(&Command::Part { chans: s("#a"), msg: None }), Some(s("PART #a")));
    assert_eq!(command_line(&Command::Quit { msg: None }), Some(s("QUIT")));
    assert_eq!(command_line(&Command::Quit { msg: Some(s("later")) }), Some(s("QUIT :later")));
    assert_eq!(command_line(&Command::Raw { text: s("MODE #a +o x") }), Some(s("MODE #a +o x")));
    assert_eq!(command_line(&Command::Reload), None);
}

#[test]
fn ping_gets_pong() {
    let l = parse_wire_line("PING :abc").unwrap();
    assert_eq!(keepalive_reply(&l), Some(s("PONG :abc")));
    let l = parse_wire_line("PING").unwrap();
    assert_eq!(keepalive_reply(&l), Some(s("PONG :")));
    let l = parse_wire_line(":x PRIVMSG #a :PING").unwrap();
    assert_eq!(keepalive_reply(&l), None);
}
