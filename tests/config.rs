use rustirc::config::{join_path, parse_channel, reconnect_time, server_from, Error, Identity, ServerEntry};
use rustirc::config_file::parse_config;
use rustirc::plugins::{plugin_name, select_plugins, DirEntry};

fn s(x: &str) -> String {
    x.to_string()
}

fn entry() -> ServerEntry {
    ServerEntry {
        name: Some(s("freenode")),
        server: Some(s("irc.example.net")),
        use_ssl: None,
        port: None,
        nick: None,
        user: Some(s("me")),
        real: None,
        autojoin: Some(vec![Some(s("#a")), None, Some(s("#b,key"))]),
    }
}

fn identity() -> Identity {
    Identity { nick: s("rustbot"), user: s("rustbot"), real: s("Rust IRC Bot") }
}

#[test]
fn channel_key_after_comma() {
    let c = parse_channel("#b,key,more");
    assert_eq!(c.name, "#b");
    assert_eq!(c.password, Some(s("key,more")));
    let c = parse_channel("#a");
    assert_eq!(c.name, "#a");
    assert_eq!(c.password, None);
    let c = parse_channel("#a,");
    assert_eq!(c.password, Some(s("")));
}

#[test]
fn reconnect_values() {
    assert_eq!(reconnect_time(None), Some(5));
    assert_eq!(reconnect_time(Some(-1)), None);
    assert_eq!(reconnect_time(Some(0)), Some(0));
    assert_eq!(reconnect_time(Some(30)), Some(30));
}

#[test]
fn server_defaults() {
    let srv = server_from(&entry(), &identity()).ok().unwrap();
    assert_eq!(srv.name, "freenode");
    assert_eq!(srv.host, "irc.example.net");
    assert_eq!(srv.port, 6667);
    assert!(!srv.use_ssl);
    assert_eq!(srv.nick, "rustbot");
    assert_eq!(srv.user, "me");
    assert_eq!(srv.real, "Rust IRC Bot");
    assert_eq!(srv.autojoin.len(), 2);
    assert_eq!(srv.autojoin[1].name, "#b");
    assert_eq!(srv.autojoin[1].password, Some(s("key")));
}

#[test]
fn server_errors() {
    let mut e = entry();
    e.name = None;
    assert!(matches!(server_from(&e, &identity()), Err(Error::ErrBadConfig)));
    let mut e = entry();
    e.server = None;
    assert!(matches!(server_from(&e, &identity()), Err(Error::ErrBadConfig)));
    let mut e = entry();
    e.use_ssl = Some(true);
    assert!(matches!(server_from(&e, &identity()), Err(Error::ErrBadConfig)));
    let mut e = entry();
    e.port = Some(70000);
    assert!(matches!(server_from(&e, &identity()), Err(Error::ErrBadConfig)));
    let mut e = entry();
    e.port = Some(-1);
    assert!(matches!(server_from(&e, &identity()), Err(Error::ErrBadConfig)));
    let mut e = entry();
    e.port = Some(65535);
    e.use_ssl = Some(false);
    assert_eq!(server_from(&e, &identity()).ok().unwrap().port, 65535);
}

#[test]
fn paths_join() {
    assert_eq!(join_path("/home/me/.rustirc", "plugins"), "/home/me/.rustirc/plugins");
    assert_eq!(join_path("/home/me/", "plugins"), "/home/me/plugins");
    assert_eq!(join_path("/home/me", "/abs"), "/abs");
    assert_eq!(join_path("", "rel"), "rel");
}

const FILE: &str = "
[plugin]
dir = \"plugins\"

[general]
reconnect = 10
reconnect_backoff = false

[general.defaults]
nick = \"botty\"

[[servers]]
name = \"local\"
server = \"localhost\"
port = 6668
autojoin = [\"#one\", \"#two,pw\", 3]

[[servers]]
name = \"second\"
server = \"irc.example.org\"
nick = \"other\"
";

#[test]
fn whole_file() {
    let c = parse_config(FILE, "/etc/bot").ok().unwrap();
    assert_eq!(c.config_dir, "/etc/bot");
    assert_eq!(c.plugin_dir, "/etc/bot/plugins");
    assert_eq!(c.reconnect_time, Some(10));
    assert!(!c.reconnect_backoff);
    assert_eq!(c.servers.len(), 2);
    assert_eq!(c.servers[0].port, 6668);
    assert_eq!(c.servers[0].nick, "botty");
    assert_eq!(c.servers[0].user, "rustbot");
    assert_eq!(c.servers[0].autojoin.len(), 2);
    assert_eq!(c.servers[0].autojoin[1].password, Some(s("pw")));
    assert_eq!(c.servers[1].nick, "other");
    assert_eq!(c.servers[1].port, 6667);
}

#[test]
fn file_errors() {
    assert!(matches!(parse_config("this is [not toml", "/x"), Err(Error::ErrBadConfig)));
    assert!(matches!(parse_config("[general]\nreconnect = 3\n", "/x"), Err(Error::ErrBadConfig)));
    assert!(matches!(parse_config("[plugin]\ndir = \"p\"\n", "/x"), Err(Error::ErrBadConfig)));
    let ssl = "[plugin]\ndir = \"p\"\n[[servers]]\nname = \"a\"\nserver = \"b\"\nuse_ssl = true\n";
    assert!(matches!(parse_config(ssl, "/x"), Err(Error::ErrBadConfig)));
}

#[test]
fn file_defaults() {
    let text = "[plugin]\ndir = \"p\"\n[[servers]]\nname = \"a\"\nserver = \"b\"\n";
    let c = parse_config(text, "/x").ok().unwrap();
    assert_eq!(c.reconnect_time, Some(5));
    assert!(c.reconnect_backoff);
    assert_eq!(c.servers[0].real, "Rust IRC Bot");
    let negative = "[plugin]\ndir = \"p\"\n[general]\nreconnect = -1\n[[servers]]\nname = \"a\"\nserver = \"b\"\n";
    assert_eq!(parse_config(negative, "/x").ok().unwrap().reconnect_time, None);
}

#[test]
fn plugin_names() {
    assert_eq!(plugin_name("greet.lua"), Some(s("greet")));
    assert_eq!(plugin_name("a.b.lua"), Some(s("a.b")));
    assert_eq!(plugin_name(".lua"), None);
    assert_eq!(plugin_name("."), None);
    assert_eq!(plugin_name(".."), None);
    assert_eq!(plugin_name("notes.txt"), None);
    assert_eq!(plugin_name("lua"), None);
    assert_eq!(plugin_name("x.LUA"), None);
}

#[test]
fn plugin_selection_keeps_order() {
    let entries = vec![
        DirEntry { path: s("/p/b.lua"), file_name: s("b.lua"), is_file: true },
        DirEntry { path: s("/p/dir.lua"), file_name: s("dir.lua"), is_file: false },
        DirEntry { path: s("/p/readme"), file_name: s("readme"), is_file: true },
        DirEntry { path: s("/p/a.lua"), file_name: s("a.lua"), is_file: true },
    ];
    let files = select_plugins(&entries);
    assert_eq!(files.len(), 2);
    assert_eq!(files[0].path, "/p/b.lua");
    assert_eq!(files[0].name, "b");
    assert_eq!(files[1].name, "a");
}
