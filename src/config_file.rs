//! Reading the configuration file's text with the `toml` crate.

use crate::config::{config_from, config_matches, config_ok, ConfigEntries, Config, Error, ServerEntry};
use vstd::prelude::*;

verus! {

#[verifier::external_type_specification]
#[verifier::external_body]
pub struct ExTomlValue(toml::Value);

/// Relies on `toml::Table`'s `FromStr`: parses a whole document, which is a
/// table; `None` on malformed text (the parse error is dropped).
#[verifier::external_body]
fn parse_document(text: &str) -> Option<toml::Value> {
    text.parse::<toml::Table>().ok().map(toml::Value::Table)
}

/// Relies on `toml::Value::get` with a string key: the value under `key`
/// when `v` is a table that has one.
#[verifier::external_body]
fn field<'a>(v: &'a toml::Value, key: &str) -> Option<&'a toml::Value> {
    v.get(key)
}

pub assume_specification[ toml::Value::as_str ](v: &toml::Value) -> Option<&str>;

pub assume_specification[ toml::Value::as_integer ](v: &toml::Value) -> Option<i64>;

pub assume_specification[ toml::Value::as_bool ](v: &toml::Value) -> Option<bool>;

pub assume_specification[ toml::Value::as_array ](v: &toml::Value) -> Option<&Vec<toml::Value>>;

fn text_at(v: &toml::Value, key: &str) -> Option<String> {
    match field(v, key) {
        None => None,
        Some(x) => match x.as_str() {
            None => None,
            Some(s) => Some(s.to_owned()),
        },
    }
}

fn integer_at(v: &toml::Value, key: &str) -> Option<i64> {
    match field(v, key) {
        None => None,
        Some(x) => x.as_integer(),
    }
}

fn bool_at(v: &toml::Value, key: &str) -> Option<bool> {
    match field(v, key) {
        None => None,
        Some(x) => x.as_bool(),
    }
}

fn table_at<'a>(v: &'a toml::Value, key: &str) -> Option<&'a toml::Value> {
    field(v, key)
}

/// The elements of an `autojoin` list, `None` for those that are no string.
fn texts_of(v: &Vec<toml::Value>) -> (r: Vec<Option<String>>)
    ensures
        r@.len() == v@.len(),
{
    let mut r: Vec<Option<String>> = Vec::new();
    let mut i: usize = 0;
    while i < v.len()
        invariant
            i <= v.len(),
            r@.len() == i,
        decreases v.len() - i,
    {
        let t = match v[i].as_str() {
            None => None,
            Some(s) => Some(s.to_owned()),
        };
        r.push(t);
        i = i + 1;
    }
    r
}

fn server_entry(v: &toml::Value) -> ServerEntry {
    let autojoin = match field(v, "autojoin") {
        None => None,
        Some(a) => match a.as_array() {
            None => None,
            Some(items) => Some(texts_of(items)),
        },
    };
    ServerEntry {
        name: text_at(v, "name"),
        server: text_at(v, "server"),
        use_ssl: bool_at(v, "use_ssl"),
        port: integer_at(v, "port"),
        nick: text_at(v, "nick"),
        user: text_at(v, "user"),
        real: text_at(v, "real"),
        autojoin,
    }
}

fn server_entries(v: &Vec<toml::Value>) -> (r: Vec<ServerEntry>)
    ensures
        r@.len() == v@.len(),
{
    let mut r: Vec<ServerEntry> = Vec::new();
    let mut i: usize = 0;
    while i < v.len()
        invariant
            i <= v.len(),
            r@.len() == i,
        decreases v.len() - i,
    {
        r.push(server_entry(&v[i]));
        i = i + 1;
    }
    r
}

/// The values that a parsed document gives.
fn entries_of(doc: &toml::Value) -> ConfigEntries {
    let plugin = table_at(doc, "plugin");
    let general = table_at(doc, "general");
    let defaults = match general {
        None => None,
        Some(g) => table_at(g, "defaults"),
    };
    let servers = match field(doc, "servers") {
        None => None,
        Some(s) => match s.as_array() {
            None => None,
            Some(items) => Some(server_entries(items)),
        },
    };
    ConfigEntries {
        plugin_dir: match plugin {
            None => None,
            Some(p) => text_at(p, "dir"),
        },
        reconnect: match general {
            None => None,
            Some(g) => integer_at(g, "reconnect"),
        },
        reconnect_backoff: match general {
            None => None,
            Some(g) => bool_at(g, "reconnect_backoff"),
        },
        default_nick: match defaults {
            None => None,
            Some(d) => text_at(d, "nick"),
        },
        default_user: match defaults {
            None => None,
            Some(d) => text_at(d, "user"),
        },
        default_real: match defaults {
            None => None,
            Some(d) => text_at(d, "real"),
        },
        servers,
    }
}

/// The configuration that the text of a configuration file in `dir` gives.
/// Malformed text, and values that make no configuration, give
/// `ErrBadConfig`; otherwise the configuration is the one that the file's
/// values stand for.
pub fn parse_config(text: &str, dir: &str) -> (r: Result<Config, Error>)
    ensures
        r matches Err(e) ==> e is ErrBadConfig,
        r matches Ok(cfg) ==> exists|c: ConfigEntries|
            config_ok(c) && #[trigger] config_matches(cfg, c, dir@),
{
    match parse_document(text) {
        None => Err(Error::ErrBadConfig),
        Some(doc) => {
            let entries = entries_of(&doc);
            let r = config_from(&entries, dir);
            proof {
                if r is Ok {
                    assert(config_ok(entries) && config_matches(r->Ok_0, entries, dir@));
                }
            }
            r
        },
    }
}

} // verus!
