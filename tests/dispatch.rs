use rustirc::commands::Command;
use rustirc::config::Channel;
use rustirc::events::{
    args_of, autojoin_commands, decimal_text, name_of, Arg, Event, Line, LineCommand, User,
};
use rustirc::handlers::Runtime;

fn s(x: &str) -> String {
    x.to_string()
}

fn sender() -> User {
    User { raw: s("nick!user@host"), nick: s("nick"), user: Some(s("user")), host: Some(s("host")) }
}

fn line(command: LineCommand, args: Vec<String>, prefix: Option<User>) -> Event {
    Event::LineReceived(Line { command, args, prefix })
}

#[test]
fn numeric_names_are_decimal() {
    assert_eq!(decimal_text(1), "1");
    assert_eq!(decimal_text(0), "0");
    assert_eq!(decimal_text(433), "433");
    assert_eq!(decimal_text(65535), "65535");
}

#[test]
fn synthetic_names() {
    assert_eq!(name_of(&Event::Connected), "CONNECTED");
    assert_eq!(name_of(&Event::Disconnected), "DISCONNECTED");
    assert_eq!(name_of(&line(LineCommand::Action(s("#c")), vec![], None)), "ACTION");
    assert_eq!(name_of(&line(LineCommand::Ctcp(s("VERSION"), s("me")), vec![], None)), "CTCP");
    assert_eq!(name_of(&line(LineCommand::CtcpReply(s("PING"), s("me")), vec![], None)), "CTCPREPLY");
    assert_eq!(name_of(&line(LineCommand::Named(s("PRIVMSG")), vec![], None)), "PRIVMSG");
    assert!(args_of(&Event::Connected).is_empty());
}

#[test]
fn welcome_without_handlers_builds_nothing() {
    let rt = Runtime::new();
    let e = line(LineCommand::Code(1), vec![s("me"), s("Welcome")], Some(sender()));
    assert!(rt.prepare(&e).is_none());
    let mut rt = Runtime::new();
    rt.add_handler("PRIVMSG", 3);
    assert!(rt.prepare(&e).is_none());
}

#[test]
fn action_reaches_action_handlers() {
    let mut rt = Runtime::new();
    rt.add_handler("ACTION", 10);
    let e = line(LineCommand::Action(s("#chan")), vec![s("waves")], Some(sender()));
    let d = rt.prepare(&e).unwrap();
    assert_eq!(d.name, "ACTION");
    assert_eq!(d.handlers, vec![10]);
    assert_eq!(d.args, vec![Arg::Sender(sender()), Arg::Text(s("#chan")), Arg::Text(s("waves"))]);
    match &d.args[0] {
        Arg::Sender(u) => assert_eq!(u.nick, "nick"),
        _ => panic!("sender expected"),
    }
}

#[test]
fn ctcp_arguments() {
    let mut rt = Runtime::new();
    rt.add_handler("CTCP", 1);
    let e = line(LineCommand::Ctcp(s("VERSION"), s("bot")), vec![], None);
    let d = rt.prepare(&e).unwrap();
    assert_eq!(d.args, vec![Arg::Nil, Arg::Text(s("VERSION")), Arg::Text(s("bot"))]);
}

#[test]
fn numeric_event_arguments() {
    let mut rt = Runtime::new();
    rt.add_handler("1", 4);
    let e = line(LineCommand::Code(1), vec![s("me"), s("Welcome")], None);
    let d = rt.prepare(&e).unwrap();
    assert_eq!(d.args, vec![Arg::Nil, Arg::Text(s("me")), Arg::Text(s("Welcome"))]);
}

#[test]
fn handlers_fire_in_registration_order() {
    let mut rt = Runtime::new();
    rt.add_handler("X", 1);
    rt.add_handler("Y", 9);
    rt.add_handler("X", 2);
    rt.add_handler("X", 3);
    let e = line(LineCommand::Named(s("X")), vec![], None);
    for _ in 0..3 {
        let d = rt.prepare(&e).unwrap();
        assert_eq!(d.handlers, vec![1, 2, 3]);
    }
    assert_eq!(rt.handlers("Y"), vec![9]);
}

#[test]
fn each_call_gets_its_own_arguments() {
    let mut rt = Runtime::new();
    rt.add_handler("PRIVMSG", 1);
    rt.add_handler("PRIVMSG", 2);
    let e = line(LineCommand::Named(s("PRIVMSG")), vec![s("#a"), s("hi")], Some(sender()));
    let d = rt.prepare(&e).unwrap();
    let mut calls = d.invocations();
    assert_eq!(calls.len(), 2);
    // the first handler mutates its record
    if let Arg::Sender(u) = &mut calls[0].args[0] {
        u.nick = s("changed");
    }
    assert_eq!(calls[1].args, d.args);
    assert_eq!(calls[1].handler, 2);
    // a second dispatch of the same event sees the original values
    let again = rt.prepare(&e).unwrap();
    assert_eq!(again.args[0], Arg::Sender(sender()));
}

#[test]
fn reload_drops_old_handlers() {
    let mut rt = Runtime::new();
    rt.add_handler("PRIVMSG", 1);
    rt.add_handler("RELOADED", 5);
    rt.reload();
    assert_eq!(rt.generation(), 1);
    let e = line(LineCommand::Named(s("PRIVMSG")), vec![], None);
    assert!(rt.prepare(&e).is_none());
    assert!(rt.prepare_reloaded().is_none());
    rt.add_handler("PRIVMSG", 1);
    rt.add_handler("RELOADED", 7);
    let d = rt.prepare(&e).unwrap();
    assert_eq!(d.generation, 1);
    assert_eq!(d.handlers, vec![1]);
    let r = rt.prepare_reloaded().unwrap();
    assert_eq!(r.handlers, vec![7]);
    assert!(r.args.is_empty());
}

#[test]
fn autojoin_on_welcome_only() {
    let chans = vec![
        Channel { name: s("#a"), password: None },
        Channel { name: s("#b"), password: Some(s("k")) },
    ];
    let welcome = line(LineCommand::Code(1), vec![], None);
    assert_eq!(
        autojoin_commands(&welcome, &chans),
        vec![
            Command::Join { chans: s("#a"), keys: None },
            Command::Join { chans: s("#b"), keys: None },
        ]
    );
    let other = line(LineCommand::Code(2), vec![], None);
    assert!(autojoin_commands(&other, &chans).is_empty());
    assert!(autojoin_commands(&Event::Connected, &chans).is_empty());
}
