use vstd::prelude::*;
use vstd::string::StringExecFns;

use crate::error::ErrorKind;

verus! {

/// The string at the top-level key `key` of the TOML document `text`, or
/// `None` where the text is not TOML or holds no string there.
pub uninterp spec fn toml_string_field(text: Seq<char>, key: Seq<char>) -> Option<Seq<char>>;

/// The integer at the top-level key `key` of the TOML document `text`, or
/// `None` where the text is not TOML or holds no integer there.
pub uninterp spec fn toml_integer_field(text: Seq<char>, key: Seq<char>) -> Option<int>;

/// Relies on toml: the `FromStr` impl of `toml::Table` parses the document,
/// `toml::map::Map::get` looks the key up and `toml::Value::as_str` reads a
/// string value; the result depends on the text and the key alone.
#[verifier::external_body]
fn string_field(text: &str, key: &str) -> (r: Option<String>)
    ensures
        match r {
            Some(s) => toml_string_field(text@, key@) == Some(s@),
            None => toml_string_field(text@, key@) is None,
        },
{
    text.parse::<toml::Table>().ok()?.get(key)?.as_str().map(String::from)
}

/// Relies on toml: the `FromStr` impl of `toml::Table` parses the document,
/// `toml::map::Map::get` looks the key up and `toml::Value::as_integer`
/// reads an integer value; the result depends on the text and the key alone.
#[verifier::external_body]
fn integer_field(text: &str, key: &str) -> (r: Option<i64>)
    ensures
        match r {
            Some(v) => toml_integer_field(text@, key@) == Some(v as int),
            None => toml_integer_field(text@, key@) is None,
        },
{
    text.parse::<toml::Table>().ok()?.get(key)?.as_integer()
}

/// The tunnel's configuration: the upstream's `host:port`, the local port it
/// listens on, and its log filter.
#[derive(Clone, Debug, PartialEq, Eq)]
pub struct Config {
    pub proxy_address: String,
    pub port: u16,
    pub log_level: String,
}

impl Config {
    /// The configuration made of the fields as found in a configuration
    /// file: each must be present, and the port must fit in 16 bits.
    pub fn from_fields(proxy_address: Option<&str>, port: Option<i64>, log_level: Option<&str>) -> (r: Result<
        Config,
        ErrorKind,
    >)
        ensures
            match (proxy_address, port, log_level) {
                (Some(a), Some(p), Some(l)) => if 0 <= p <= 65535 {
                    r is Ok && r->Ok_0.proxy_address@ == a@ && r->Ok_0.port == p
                        && r->Ok_0.log_level@ == l@
                } else {
                    r == Err::<Config, ErrorKind>(ErrorKind::ConfigReadFailure)
                },
                _ => r == Err::<Config, ErrorKind>(ErrorKind::ConfigReadFailure),
            },
    {
        match (proxy_address, port, log_level) {
            (Some(a), Some(p), Some(l)) => {
                if 0 <= p && p <= 65535 {
                    Ok(
                        Config {
                            proxy_address: String::from_str(a),
                            port: p as u16,
                            log_level: String::from_str(l),
                        },
                    )
                } else {
                    Err(ErrorKind::ConfigReadFailure)
                }
            },
            _ => Err(ErrorKind::ConfigReadFailure),
        }
    }

    /// The configuration written in the TOML text `contents`, with the
    /// string `proxy_address`, the integer `port` and the string
    /// `log_level`; fails with `ConfigReadFailure` where the text is not TOML
    /// or a field is absent, of another type, or out of range.
    pub fn load(contents: &str) -> (r: Result<Config, ErrorKind>)
        ensures
            match (
                toml_string_field(contents@, "proxy_address"@),
                toml_integer_field(contents@, "port"@),
                toml_string_field(contents@, "log_level"@),
            ) {
                (Some(a), Some(p), Some(l)) => if 0 <= p <= 65535 {
                    r is Ok && r->Ok_0.proxy_address@ == a && r->Ok_0.port == p && r->Ok_0.log_level@ == l
                } else {
                    r == Err::<Config, ErrorKind>(ErrorKind::ConfigReadFailure)
                },
                _ => r == Err::<Config, ErrorKind>(ErrorKind::ConfigReadFailure),
            },
    {
        let proxy_address = string_field(contents, "proxy_address");
        let port = integer_field(contents, "port");
        let log_level = string_field(contents, "log_level");
        let proxy_address_ref = match &proxy_address {
            Some(s) => Some(s.as_str()),
            None => None,
        };
        let log_level_ref = match &log_level {
            Some(s) => Some(s.as_str()),
            None => None,
        };
        Config::from_fields(proxy_address_ref, port, log_level_ref)
    }
}

} // verus!
