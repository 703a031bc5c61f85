//! The bot's configuration: the plugin directory, the reconnection policy
//! and the servers, built from the values that the configuration file gives.

use crate::commands::{holds, split_at_char, split_on};
use vstd::prelude::*;

verus! {

/// A channel to join on connection, with its key if it has one.
pub struct Channel {
    pub name: String,
    pub password: Option<String>,
}

/// A server entry.
pub struct Server {
    pub name: String,
    pub host: String,
    pub port: u16,
    pub use_ssl: bool,
    pub nick: String,
    pub user: String,
    pub real: String,
    pub autojoin: Vec<Channel>,
}

/// The whole configuration.
pub struct Config {
    /// The directory that holds the configuration file.
    pub config_dir: String,
    /// The directory the plugins are loaded from.
    pub plugin_dir: String,
    /// The first reconnection delay in seconds; `None` disables reconnection.
    pub reconnect_time: Option<u64>,
    pub reconnect_backoff: bool,
    pub servers: Vec<Server>,
}

/// Why no configuration came out.
pub enum Error {
    /// The command line could not be parsed.
    ErrBadFlag,
    /// Help was asked for.
    ErrHelpFlag,
    /// No configuration file existed; an example one was written.
    ErrWroteConfig,
    /// The configuration file is malformed or lacks a required value.
    ErrBadConfig,
    /// The configuration file could not be read or written.
    ErrIO(String),
}

/// What a server entry of the file gives, each value only where it is there
/// and of the right type.
pub struct ServerEntry {
    pub name: Option<String>,
    pub server: Option<String>,
    pub use_ssl: Option<bool>,
    pub port: Option<i64>,
    pub nick: Option<String>,
    pub user: Option<String>,
    pub real: Option<String>,
    /// The `autojoin` list; `None` for each element that is not a string.
    pub autojoin: Option<Vec<Option<String>>>,
}

/// What the configuration file gives.
pub struct ConfigEntries {
    pub plugin_dir: Option<String>,
    pub reconnect: Option<i64>,
    pub reconnect_backoff: Option<bool>,
    pub default_nick: Option<String>,
    pub default_user: Option<String>,
    pub default_real: Option<String>,
    /// The `servers` table array, if there is one.
    pub servers: Option<Vec<ServerEntry>>,
}

/// The identity used where a server entry gives none.
pub struct Identity {
    pub nick: String,
    pub user: String,
    pub real: String,
}

/// The reconnection delay a `general.reconnect` value stands for: five
/// seconds when absent, none when negative.
pub open spec fn reconnect_spec(v: Option<i64>) -> Option<u64> {
    match v {
        None => Some(5),
        Some(x) => if x < 0 {
            None
        } else {
            Some(x as u64)
        },
    }
}

pub fn reconnect_time(v: Option<i64>) -> (r: Option<u64>)
    ensures
        r == reconnect_spec(v),
{
    match v {
        None => Some(5),
        Some(x) => if x < 0 {
            None
        } else {
            Some(x as u64)
        },
    }
}

/// The port a server entry stands for: 6667 when absent.
pub open spec fn port_value(v: Option<i64>) -> int {
    match v {
        None => 6667,
        Some(p) => p as int,
    }
}

pub open spec fn text_or(v: Option<String>, d: Seq<char>) -> Seq<char> {
    match v {
        None => d,
        Some(s) => s@,
    }
}

fn copy_or(v: &Option<String>, d: &String) -> (r: String)
    ensures
        r@ == text_or(*v, d@),
{
    match v {
        None => d.as_str().to_owned(),
        Some(s) => s.as_str().to_owned(),
    }
}

/// The channel an `autojoin` element stands for: the text before its first
/// comma, and the key after it if there is a comma.
pub open spec fn channel_spec(s: Seq<char>) -> (Seq<char>, Option<Seq<char>>) {
    (split_on(s, ',').0, if holds(s, ',') {
        Some(split_on(s, ',').1)
    } else {
        None
    })
}

pub open spec fn channel_view(c: Channel) -> (Seq<char>, Option<Seq<char>>) {
    (c.name@, match c.password {
        None => None,
        Some(p) => Some(p@),
    })
}

/// The channel an `autojoin` element stands for.
pub fn parse_channel(s: &str) -> (r: Channel)
    ensures
        channel_view(r) == channel_spec(s@),
{
    let (name, pass) = split_at_char(s, ',');
    let password = match pass {
        None => None,
        Some(p) => Some(p.to_owned()),
    };
    Channel { name: name.to_owned(), password }
}

/// The channels of an `autojoin` list, elements that are not strings left out.
pub open spec fn channels_spec(v: Seq<Option<String>>) -> Seq<(Seq<char>, Option<Seq<char>>)>
    decreases v.len(),
{
    if v.len() == 0 {
        Seq::empty()
    } else {
        let rest = channels_spec(v.drop_last());
        match v.last() {
            None => rest,
            Some(s) => rest.push(channel_spec(s@)),
        }
    }
}

pub open spec fn channels_view(v: Seq<Channel>) -> Seq<(Seq<char>, Option<Seq<char>>)> {
    v.map_values(|c: Channel| channel_view(c))
}

pub fn autojoin_channels(v: &Vec<Option<String>>) -> (r: Vec<Channel>)
    ensures
        channels_view(r@) == channels_spec(v@),
{
    let mut r: Vec<Channel> = Vec::new();
    let mut i: usize = 0;
    while i < v.len()
        invariant
            i <= v.len(),
            channels_view(r@) == channels_spec(v@.subrange(0, i as int)),
        decreases v.len() - i,
    {
        proof {
            assert(v@.subrange(0, i + 1).drop_last() =~= v@.subrange(0, i as int));
        }
        match &v[i] {
            None => {},
            Some(s) => {
                let ghost before = r@;
                let c = parse_channel(s.as_str());
                r.push(c);
                proof {
                    assert(channels_view(r@) =~= channels_view(before).push(channel_view(c)));
                }
            },
        }
        i = i + 1;
    }
    assert(v@.subrange(0, v.len() as int) =~= v@);
    r
}

/// Whether a server entry is accepted: it names itself and its host, does
/// not ask for TLS (which is not supported) and has a port in range.
pub open spec fn entry_ok(e: ServerEntry) -> bool {
    &&& e.name is Some
    &&& e.server is Some
    &&& e.use_ssl != Some(true)
    &&& 0 <= port_value(e.port) <= u16::MAX
}

/// The server a well-formed entry stands for.
pub open spec fn server_matches(
    s: Server,
    e: ServerEntry,
    nick: Seq<char>,
    user: Seq<char>,
    real_name: Seq<char>,
) -> bool {
    &&& s.name@ == e.name.unwrap()@
    &&& s.host@ == e.server.unwrap()@
    &&& s.port == port_value(e.port)
    &&& !s.use_ssl
    &&& s.nick@ == text_or(e.nick, nick)
    &&& s.user@ == text_or(e.user, user)
    &&& s.real@ == text_or(e.real, real_name)
    &&& channels_view(s.autojoin@) == match e.autojoin {
        None => Seq::empty(),
        Some(v) => channels_spec(v@),
    }
}

/// The server an entry stands for, with `d` where it gives no identity.
pub fn server_from(e: &ServerEntry, d: &Identity) -> (r: Result<Server, Error>)
    ensures
        r is Ok <==> entry_ok(*e),
        r matches Ok(s) ==> server_matches(s, *e, d.nick@, d.user@, d.real@),
        r matches Err(err) ==> err is ErrBadConfig,
{
    let name = match &e.name {
        None => return Err(Error::ErrBadConfig),
        Some(n) => n.as_str().to_owned(),
    };
    let host = match &e.server {
        None => return Err(Error::ErrBadConfig),
        Some(h) => h.as_str().to_owned(),
    };
    let use_ssl = match e.use_ssl {
        None => false,
        Some(b) => b,
    };
    if use_ssl {
        return Err(Error::ErrBadConfig);
    }
    let p: i64 = match e.port {
        None => 6667,
        Some(p) => p,
    };
    if p < 0 || p > 0xffff {
        return Err(Error::ErrBadConfig);
    }
    let autojoin = match &e.autojoin {
        None => {
            let v: Vec<Channel> = Vec::new();
            assert(channels_view(v@) =~= Seq::empty());
            v
        },
        Some(v) => autojoin_channels(v),
    };
    Ok(
        Server {
            name,
            host,
            port: p as u16,
            use_ssl: false,
            nick: copy_or(&e.nick, &d.nick),
            user: copy_or(&e.user, &d.user),
            real: copy_or(&e.real, &d.real),
            autojoin,
        },
    )
}

/// `p` taken relative to the directory `dir`, as a path join does it: an
/// absolute `p` stands for itself.
pub open spec fn join_spec(dir: Seq<char>, p: Seq<char>) -> Seq<char> {
    if (p.len() > 0 && p[0] == '/') || dir.len() == 0 {
        p
    } else if dir.last() == '/' {
        dir + p
    } else {
        dir + seq!['/'] + p
    }
}

/// `p` taken relative to the directory `dir`.
pub fn join_path(dir: &str, p: &str) -> (r: String)
    ensures
        r@ == join_spec(dir@, p@),
{
    let dn = dir.unicode_len();
    if (p.unicode_len() > 0 && p.get_char(0) == '/') || dn == 0 {
        return p.to_owned();
    }
    let mut r = dir.to_owned();
    if dir.get_char(dn - 1) != '/' {
        let slash = "/";
        proof {
            reveal_strlit("/");
        }
        r.append(slash);
    }
    r.append(p);
    r
}

/// Whether every server entry is accepted.
pub open spec fn entries_ok(v: Seq<ServerEntry>) -> bool {
    forall|i: int| 0 <= i < v.len() ==> entry_ok(#[trigger] v[i])
}

/// Whether the file's values make a configuration: it names the plugin
/// directory, has a server list and every server entry is accepted.
pub open spec fn config_ok(c: ConfigEntries) -> bool {
    &&& c.plugin_dir is Some
    &&& c.servers is Some
    &&& entries_ok(c.servers.unwrap()@)
}

/// The configuration that well-formed values stand for, read from a file in
/// `dir`. The default identity is `rustbot`, `rustbot`, `Rust IRC Bot`, and
/// backoff is on unless the file turns it off.
pub open spec fn config_matches(r: Config, c: ConfigEntries, dir: Seq<char>) -> bool {
    let v = c.servers.unwrap()@;
    &&& r.config_dir@ == dir
    &&& r.plugin_dir@ == join_spec(dir, c.plugin_dir.unwrap()@)
    &&& r.reconnect_time == reconnect_spec(c.reconnect)
    &&& r.reconnect_backoff == match c.reconnect_backoff {
        None => true,
        Some(b) => b,
    }
    &&& r.servers@.len() == v.len()
    &&& forall|i: int|
        0 <= i < v.len() ==> server_matches(
            #[trigger] r.servers@[i],
            v[i],
            text_or(c.default_nick, "rustbot"@),
            text_or(c.default_user, "rustbot"@),
            text_or(c.default_real, "Rust IRC Bot"@),
        )
}

/// The configuration the file's values stand for, the file being in `dir`.
pub fn config_from(c: &ConfigEntries, dir: &str) -> (r: Result<Config, Error>)
    ensures
        r is Ok <==> config_ok(*c),
        r matches Ok(cfg) ==> config_matches(cfg, *c, dir@),
        r matches Err(e) ==> e is ErrBadConfig,
{
    let plugin_dir = match &c.plugin_dir {
        None => return Err(Error::ErrBadConfig),
        Some(p) => join_path(dir, p.as_str()),
    };
    let entries = match &c.servers {
        None => return Err(Error::ErrBadConfig),
        Some(v) => v,
    };
    let d = Identity {
        nick: copy_or(&c.default_nick, &String::from_str("rustbot")),
        user: copy_or(&c.default_user, &String::from_str("rustbot")),
        real: copy_or(&c.default_real, &String::from_str("Rust IRC Bot")),
    };
    let mut servers: Vec<Server> = Vec::new();
    let mut i: usize = 0;
    while i < entries.len()
        invariant
            i <= entries.len(),
            c.servers == Some(*entries),
            d.nick@ == text_or(c.default_nick, "rustbot"@),
            d.user@ == text_or(c.default_user, "rustbot"@),
            d.real@ == text_or(c.default_real, "Rust IRC Bot"@),
            servers@.len() == i,
            forall|j: int| 0 <= j < i ==> entry_ok(#[trigger] entries@[j]),
            forall|j: int|
                0 <= j < i ==> server_matches(
                    #[trigger] servers@[j],
                    entries@[j],
                    d.nick@,
                    d.user@,
                    d.real@,
                ),
        decreases entries.len() - i,
    {
        match server_from(&entries[i], &d) {
            Err(e) => {
                return Err(e);
            },
            Ok(s) => {
                servers.push(s);
            },
        }
        i = i + 1;
    }
    let backoff = match c.reconnect_backoff {
        None => true,
        Some(b) => b,
    };
    Ok(
        Config {
            config_dir: dir.to_owned(),
            plugin_dir,
            reconnect_time: reconnect_time(c.reconnect),
            reconnect_backoff: backoff,
            servers,
        },
    )
}

/// The server a session is opened to: only the first one configured is
/// used.
pub fn session_server(c: &Config) -> (r: Option<&Server>)
    ensures
        c.servers@.len() == 0 ==> r is None,
        c.servers@.len() > 0 ==> r == Some(&c.servers@[0]),
{
    if c.servers.len() == 0 {
        None
    } else {
        Some(&c.servers[0])
    }
}

} // verus!
