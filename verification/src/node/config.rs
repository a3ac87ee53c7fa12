//! The parts of a node's configuration that decisions rest on.

use crate::text;
use vstd::prelude::*;

verus! {

/// How to log in to the IRC network.
#[derive(Debug, Clone, PartialEq, Eq)]
pub enum SaslConfig {
    /// With a password, which stands in an environment variable.
    Plain { username: String, password_env: String },
    /// With the client certificate.
    External,
}

/// The IRC network that a node connects to.
#[derive(Debug, Clone, PartialEq, Eq)]
pub struct NetworkConfig {
    /// Name of the network, for people.
    pub name: String,
    /// Servers to dial, in `host:port` form.
    pub servers: Vec<String>,
    pub nick: String,
    pub ident: String,
    pub realname: String,
    /// Whether to use TLS.
    pub tls: bool,
    /// `None` disables SASL.
    pub sasl: Option<SaslConfig>,
    /// Capabilities to request.
    pub caps: Vec<String>,
    /// Channels to join.
    pub channels: Vec<String>,
}

/// What a node logs.
#[derive(Debug, Clone, PartialEq, Eq)]
pub struct LoggingConfig {
    /// Filter directive.
    pub level: String,
    /// `json` or `text`.
    pub format: String,
}

impl Default for LoggingConfig {
    /// Level `info`, as JSON.
    fn default() -> (c: Self)
        ensures
            c.level@ == "info"@,
            c.format@ == "json"@,
    {
        LoggingConfig { level: default_log_level(), format: default_log_format() }
    }
}

/// What a switch that is on unless said otherwise is set to.
pub fn default_true() -> (b: bool)
    ensures
        b,
{
    true
}

/// The filter in force unless said otherwise.
pub fn default_log_level() -> (s: String)
    ensures
        s@ == "info"@,
{
    text::owned("info")
}

/// The format in force unless said otherwise.
pub fn default_log_format() -> (s: String)
    ensures
        s@ == "json"@,
{
    text::owned("json")
}

/// The formats of the log.
#[derive(Debug, Clone, Copy, PartialEq, Eq, Structural)]
pub enum LogFormat {
    /// One JSON object a line.
    Json,
    /// For people.
    Text,
}

/// The format with a name, or the message that there is none.
pub fn log_format(name: &str) -> (r: Result<LogFormat, String>)
    ensures
        match r {
            Ok(f) => name@ == match f {
                LogFormat::Json => "json"@,
                LogFormat::Text => "text"@,
            },
            Err(m) => name@ != "json"@ && name@ != "text"@ && m@ == "unknown log format `"@ + name@
                + "`; expected `json` or `text`"@,
        },
{
    if text::str_eq(name, "json") {
        Ok(LogFormat::Json)
    } else if text::str_eq(name, "text") {
        Ok(LogFormat::Text)
    } else {
        let a = text::concat("unknown log format `", name);
        Err(text::concat(a.as_str(), "`; expected `json` or `text`"))
    }
}

/// Whether the admin listener can use TLS: the authority for clients is there,
/// and the server's certificate, which is the node's own unless another is set.
pub fn admin_tls_present(
    client_ca_exists: bool,
    server_cert_exists: Option<bool>,
    node_cert_exists: bool,
) -> (b: bool)
    ensures
        b == (client_ca_exists && match server_cert_exists {
            Some(e) => e,
            None => node_cert_exists,
        }),
{
    client_ca_exists && match server_cert_exists {
        Some(e) => e,
        None => node_cert_exists,
    }
}

} // verus!
