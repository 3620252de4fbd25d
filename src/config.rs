use vstd::prelude::*;
use vstd::string::StringSliceAdditionalSpecFns;

use crate::api_key::ApiKey;
use crate::key_store::{key_lines, KeyStore};
use crate::routing::PeerRoute;

verus! {

/// The gateway's configuration: its routes, the port it listens on, the
/// file that holds its keys, and its log filter.
#[derive(Clone, Debug, PartialEq, Eq)]
pub struct Config {
    pub peers: Vec<PeerRoute>,
    pub port: u16,
    pub key_path: String,
    pub log_level: String,
}

impl Config {
    /// The keys of this configuration, from `key_file_contents`, the text of
    /// the file at `key_path`: one key per non-empty line.
    pub fn keys(&self, key_file_contents: &str) -> (r: KeyStore)
        ensures
            r.view() == key_lines(key_file_contents.spec_bytes()),
    {
        ApiKey::from_file(key_file_contents)
    }
}

} // verus!
