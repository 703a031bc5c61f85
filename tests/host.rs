use rustirc::binding::ScriptChannel;
use rustirc::events::{Event, Line, LineCommand, User};
use rustirc::host::{is_c_safe, PluginFile, PluginManager};

fn s(x: &str) -> String {
    x.to_string()
}

/// An interpreter in which each `(event, source)` has been registered as a
/// handler, the way the `addhandler` native queues registrations.
fn interpreter(handlers: &[(&str, &str)]) -> lua::State {
    let mut st = lua::State::new();
    st.open_libs();
    let mut queued: Vec<(String, i64)> = Vec::new();
    for (event, source) in handlers.iter() {
        assert!(!st.load_string(source).is_err());
        let r = st.reference(lua::REGISTRYINDEX);
        queued.push((s(event), r.value() as i64));
    }
    let mut channel = ScriptChannel::new();
    channel.registrations = queued;
    st.set_extra(Some(Box::new(channel)));
    st
}

/// A plugin file that cannot be read: loading it fails, after which the
/// registrations queued so far are taken in.
fn setup_files() -> Vec<PluginFile> {
    vec![PluginFile { path: s("/nonexistent/setup.lua"), name: s("setup") }]
}

fn privmsg() -> Event {
    Event::LineReceived(Line {
        command: LineCommand::Named(s("PRIVMSG")),
        args: vec![s("#chan"), s("hello")],
        prefix: Some(User { raw: s("nick!u@h"), nick: s("nick"), user: Some(s("u")), host: Some(s("h")) }),
    })
}

#[test]
fn failing_handler_does_not_stop_the_next() {
    let st = interpreter(&[
        ("PRIVMSG", "local who = ...; who.nick = 'changed'; error('boom')"),
        ("PRIVMSG", "local who, dst, text = ...; if who.nick ~= 'nick' or dst ~= '#chan' or text ~= 'hello' then error('bad arguments') end"),
    ]);
    let (mut pm, loads) = PluginManager::new(st, &setup_files()).ok().unwrap();
    assert_eq!(loads.len(), 1);
    for _ in 0..2 {
        let reports = pm.dispatch_irc_event(&privmsg()).calls;
        assert_eq!(reports.len(), 2);
        assert!(reports[0].error.as_ref().unwrap().contains("boom"));
        assert!(reports[1].error.is_none());
        assert_eq!(reports[1].nargs, 3);
        assert!(pm.dispatch_irc_event(&privmsg()).sent.is_empty());
    }
}

#[test]
fn events_without_handlers_call_nothing() {
    let st = interpreter(&[("JOIN", "error('never')")]);
    let (mut pm, _) = PluginManager::new(st, &setup_files()).ok().unwrap();
    assert!(pm.dispatch_irc_event(&privmsg()).calls.is_empty());
    assert!(pm.dispatch_irc_event(&Event::Connected).calls.is_empty());
}

#[test]
fn reload_replaces_the_generation() {
    let st = interpreter(&[("PRIVMSG", "error('old generation')")]);
    let (mut pm, _) = PluginManager::new(st, &setup_files()).ok().unwrap();
    assert_eq!(pm.dispatch_irc_event(&privmsg()).calls.len(), 1);
    assert_eq!(pm.generation(), 0);
    let fresh = interpreter(&[
        ("RELOADED", "if select('#', ...) ~= 0 then error('arguments') end"),
        ("PRIVMSG", "local who = ...; assert(who.nick == 'nick')"),
    ]);
    let rep = pm.reload_plugins(fresh, &setup_files()).ok().unwrap();
    assert_eq!(pm.generation(), 1);
    assert_eq!(rep.reloaded.len(), 1);
    assert_eq!(rep.reloaded[0].nargs, 0);
    assert!(rep.reloaded[0].error.is_none());
    let reports = pm.dispatch_irc_event(&privmsg()).calls;
    assert_eq!(reports.len(), 1);
    assert!(reports[0].error.is_none());
}

#[test]
fn no_plugins_no_handlers() {
    let st = interpreter(&[("PRIVMSG", "return")]);
    let (mut pm, loads) = PluginManager::new(st, &Vec::new()).ok().unwrap();
    assert!(loads.is_empty());
    assert!(pm.dispatch_irc_event(&privmsg()).calls.is_empty());
}

#[test]
fn failing_plugins_are_reported_and_skipped() {
    let files = vec![
        PluginFile { path: s("/nonexistent/dir/missing.lua"), name: s("missing") },
        PluginFile { path: s("bad\0path.lua"), name: s("bad") },
    ];
    let st = interpreter(&[("PRIVMSG", "return")]);
    let (mut pm, loads) = PluginManager::new(st, &files).ok().unwrap();
    assert_eq!(loads.len(), 2);
    assert_eq!(loads[0].name, "missing");
    assert!(loads[0].error.is_some());
    assert_eq!(loads[1].name, "bad");
    assert!(loads[1].error.is_some());
    let reports = pm.dispatch_irc_event(&privmsg()).calls;
    assert_eq!(reports.len(), 1);
    assert!(reports[0].error.is_none());
}

#[test]
fn c_strings() {
    assert!(is_c_safe("plugins/greet.lua"));
    assert!(!is_c_safe("a\0b"));
    assert!(is_c_safe(""));
}
