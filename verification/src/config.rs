//! The stored credentials: the datasource API key and the Grafana token.
use vstd::prelude::*;

use crate::text::{
    append_str, can_truncate, chars_of, opt_str_view, opt_view, string_of, string_views,
    truncate_bytes, truncate_bytes_chars,
};

verus! {

/// The client's configuration, as kept in `config.json`.
#[derive(Debug)]
pub struct Config {
    pub api_key: Option<String>,
    pub grafana_token: Option<String>,
}

impl Default for Config {
    /// No API key and no Grafana token.
    fn default() -> (r: Config)
        ensures
            r.api_key is None,
            r.grafana_token is None,
    {
        Config { api_key: None, grafana_token: None }
    }
}

/// The first `n` bytes of a secret followed by `...`.
pub open spec fn masked(key: Seq<char>, n: nat) -> Seq<char> {
    truncate_bytes(key, n) + "..."@
}

/// How one setting is shown: masked to `n` bytes, or `(not set)`.
pub open spec fn shown(value: Option<Seq<char>>, n: nat) -> Seq<char> {
    match value {
        Some(k) => masked(k, n),
        None => "(not set)"@,
    }
}

/// The secrets can be cut where the summary cuts them.
pub open spec fn summary_fits(c: Config) -> bool {
    &&& (c.api_key matches Some(k) ==> can_truncate(k@, 12))
    &&& (c.grafana_token matches Some(t) ==> can_truncate(t@, 20))
}

/// The lines that show the current configuration.
pub open spec fn summary_text(c: Config) -> Seq<Seq<char>> {
    seq![
        "Current configuration:"@,
        "  api_key: "@ + shown(opt_view(c.api_key), 12),
        "  grafana_token: "@ + shown(opt_view(c.grafana_token), 20),
    ]
}

/// The first `n` bytes of `key` followed by `...`.
pub fn mask(key: &str, n: usize) -> (r: String)
    requires
        can_truncate(key@, n as nat),
    ensures
        r@ == masked(key@, n as nat),
{
    let k = chars_of(key);
    let mut v = truncate_bytes_chars(&k, n);
    append_str(&mut v, "...");
    string_of(&v)
}

/// One setting as shown in the summary.
fn shown_value(value: &Option<String>, n: usize) -> (r: Vec<char>)
    requires
        value matches Some(k) ==> can_truncate(k@, n as nat),
    ensures
        r@ == shown(opt_view(*value), n as nat),
{
    match value {
        Some(k) => {
            let m = mask(k.as_str(), n);
            chars_of(m.as_str())
        },
        None => chars_of("(not set)"),
    }
}

impl Config {
    /// The API key, if one is set.
    pub fn get_api_key(&self) -> (r: Option<&str>)
        ensures
            opt_str_view(r) == opt_view(self.api_key),
    {
        match &self.api_key {
            Some(k) => Some(k.as_str()),
            None => None,
        }
    }

    /// The API key, if one is set.
    pub fn api_key(&self) -> (r: Option<&str>)
        ensures
            opt_str_view(r) == opt_view(self.api_key),
    {
        self.get_api_key()
    }

    /// The Grafana token, if one is set.
    pub fn grafana_token(&self) -> (r: Option<&str>)
        ensures
            opt_str_view(r) == opt_view(self.grafana_token),
    {
        match &self.grafana_token {
            Some(t) => Some(t.as_str()),
            None => None,
        }
    }

    /// The lines that show the configuration, secrets masked.
    pub fn summary(&self) -> (r: Vec<String>)
        requires
            summary_fits(*self),
        ensures
            string_views(r@) == summary_text(*self),
    {
        let mut out: Vec<String> = Vec::new();
        out.push(String::from_str("Current configuration:"));
        let mut line = chars_of("  api_key: ");
        let key = shown_value(&self.api_key, 12);
        crate::text::append(&mut line, &key);
        out.push(string_of(&line));
        let mut line2 = chars_of("  grafana_token: ");
        let tok = shown_value(&self.grafana_token, 20);
        crate::text::append(&mut line2, &tok);
        out.push(string_of(&line2));
        assert(string_views(out@) =~= summary_text(*self));
        out
    }
}

} // verus!
