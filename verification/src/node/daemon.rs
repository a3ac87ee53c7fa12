//! What the daemon makes of its configuration and of messages to it.

use crate::ircd::sasl::{SaslMechanism, SaslView};
use crate::ircd::session::{ConfigView, SessionConfig};
use crate::ircd::state;
use crate::node::config::{NetworkConfig, SaslConfig};
use crate::text;
use vstd::prelude::*;
use vstd::string::*;

verus! {

/// Why no session can be configured.
#[derive(Debug, Clone, PartialEq, Eq)]
pub enum SessionConfigError {
    /// There is no server to dial.
    NoServers,
    /// The environment variable with the password could not be read.
    MissingPassword(String),
}

impl SessionConfigError {
    /// The message of the error.
    pub fn to_string(&self) -> (s: String)
        ensures
            s@ == match *self {
                SessionConfigError::NoServers => "network.servers must have at least one entry"@,
                SessionConfigError::MissingPassword(v) => "reading SASL password from $"@ + v@,
            },
    {
        match self {
            SessionConfigError::NoServers => text::owned(
                "network.servers must have at least one entry",
            ),
            SessionConfigError::MissingPassword(v) => text::concat(
                "reading SASL password from $",
                v.as_str(),
            ),
        }
    }
}

/// What a connection and a session are made from.
#[derive(Debug, Clone, PartialEq, Eq)]
pub struct SessionPlan {
    /// The server to dial, in `host:port` form.
    pub server: String,
    /// The name that the server's certificate must carry.
    pub server_name: String,
    pub tls: bool,
    pub session: SessionConfig,
}

/// Where a text has its last colon; -1 if it has none.
pub open spec fn last_colon(s: Seq<char>) -> int
    decreases s.len(),
{
    if s.len() == 0 {
        -1
    } else if s.last() == ':' {
        s.len() - 1
    } else {
        last_colon(s.drop_last())
    }
}

/// The host of an endpoint: what stands before the last colon, or all of it.
pub open spec fn host_of(endpoint: Seq<char>) -> Seq<char> {
    if last_colon(endpoint) < 0 {
        endpoint
    } else {
        endpoint.take(last_colon(endpoint))
    }
}

proof fn lemma_last_colon(s: Seq<char>)
    ensures
        -1 <= last_colon(s) < s.len(),
    decreases s.len(),
{
    if s.len() > 0 {
        lemma_last_colon(s.drop_last());
    }
}

/// The host of an endpoint.
pub fn server_host(endpoint: &str) -> (s: String)
    ensures
        s@ == host_of(endpoint@),
{
    let cs = text::chars_of(endpoint);
    let mut i: usize = cs.len();
    assert(endpoint@.take(endpoint@.len() as int) =~= endpoint@);
    while i > 0
        invariant
            i <= cs.len(),
            cs@ == endpoint@,
            last_colon(endpoint@) == last_colon(endpoint@.take(i as int)),
        decreases i,
    {
        proof {
            assert(endpoint@.take(i as int).last() == cs@[i - 1]);
            assert(endpoint@.take(i as int).drop_last() =~= endpoint@.take(i - 1));
        }
        if cs[i - 1] == ':' {
            let s = text::string_of(&cs, 0, i - 1);
            assert(s@ =~= endpoint@.take(i - 1));
            return s;
        }
        i = i - 1;
    }
    text::owned(endpoint)
}

/// The environment variable that holds the password, if one is needed.
pub fn password_variable(net: &NetworkConfig) -> (r: Option<&str>)
    ensures
        text::opt_str_view(r) == match net.sasl {
            Some(SaslConfig::Plain { password_env, .. }) => Some(password_env@),
            _ => None,
        },
{
    match &net.sasl {
        Some(SaslConfig::Plain { password_env, .. }) => Some(password_env.as_str()),
        _ => None,
    }
}

/// The credentials of a session. `password` is what the environment variable
/// holds, where one is needed.
pub open spec fn sasl_of(net: NetworkConfig, password: Option<Seq<char>>) -> Option<SaslView> {
    match net.sasl {
        None => None,
        Some(SaslConfig::External) => Some(SaslView::External { authzid: Seq::empty() }),
        Some(SaslConfig::Plain { username, .. }) => Some(
            SaslView::Plain {
                authzid: Seq::empty(),
                username: username@,
                password: password.unwrap(),
            },
        ),
    }
}

/// The capabilities to request: those configured, and `sasl` where credentials
/// are.
pub open spec fn caps_of(net: NetworkConfig) -> Seq<Seq<char>> {
    let caps = text::views(net.caps@);
    if net.sasl is Some && !caps.contains("sasl"@) {
        caps.push("sasl"@)
    } else {
        caps
    }
}

/// Whether the password is needed and missing.
pub open spec fn lacks_password(net: NetworkConfig, password: Option<&str>) -> bool {
    net.sasl matches Some(SaslConfig::Plain { .. }) && password is None
}

fn contains_text(l: &Vec<String>, t: &str) -> (b: bool)
    ensures
        b == text::views(l@).contains(t@),
{
    let mut i: usize = 0;
    while i < l.len()
        invariant
            i <= l.len(),
            forall|j: int| 0 <= j < i ==> (#[trigger] l@[j])@ != t@,
        decreases l.len() - i,
    {
        if text::str_eq(l[i].as_str(), t) {
            assert(text::views(l@)[i as int] == t@);
            return true;
        }
        i = i + 1;
    }
    false
}

/// Make a session's configuration of the network's: the first server is dialed.
/// `password` is what the environment variable holds, where one is needed.
pub fn build_session_config(net: &NetworkConfig, password: Option<&str>) -> (r: Result<
    SessionPlan,
    SessionConfigError,
>)
    ensures
        net.servers@.len() == 0 ==> r == Err::<SessionPlan, SessionConfigError>(
            SessionConfigError::NoServers,
        ),
        net.servers@.len() > 0 && lacks_password(*net, password) ==> (r matches Err(
            SessionConfigError::MissingPassword(v),
        ) && net.sasl matches Some(SaslConfig::Plain { password_env, .. }) && v@ == password_env@),
        net.servers@.len() > 0 && !lacks_password(*net, password) ==> (r matches Ok(p) && {
            &&& p.server@ == net.servers@[0]@
            &&& p.server_name@ == host_of(net.servers@[0]@)
            &&& p.tls == net.tls
            &&& p.session@ == (ConfigView {
                nick: net.nick@,
                ident: net.ident@,
                realname: net.realname@,
                desired_caps: caps_of(*net),
                sasl: sasl_of(*net, text::opt_str_view(password)),
                channels: text::views(net.channels@),
            })
        }),
{
    if net.servers.len() == 0 {
        return Err(SessionConfigError::NoServers);
    }
    let server = net.servers[0].clone();
    let server_name = server_host(server.as_str());
    let sasl = match &net.sasl {
        None => None,
        Some(SaslConfig::External) => Some(SaslMechanism::External { authzid: String::new() }),
        Some(SaslConfig::Plain { username, password_env }) => {
            match password {
                None => {
                    return Err(SessionConfigError::MissingPassword(password_env.clone()));
                },
                Some(p) => Some(
                    SaslMechanism::Plain {
                        authzid: String::new(),
                        username: username.clone(),
                        password: text::owned(p),
                    },
                ),
            }
        },
    };
    let mut desired_caps = text::copy_list(&net.caps);
    if sasl.is_some() && !contains_text(&desired_caps, "sasl") {
        let ghost before = desired_caps@;
        desired_caps.push(text::owned("sasl"));
        assert(text::views(desired_caps@) =~= text::views(before).push("sasl"@));
    }
    Ok(
        SessionPlan {
            server,
            server_name,
            tls: net.tls,
            session: SessionConfig {
                nick: net.nick.clone(),
                ident: net.ident.clone(),
                realname: net.realname.clone(),
                desired_caps,
                sasl,
                channels: text::copy_list(&net.channels),
            },
        },
    )
}

// ----- answering ----------------------------------------------------------------

/// Who a message is answered to: the channel, or the sender's nick.
pub open spec fn reply_target(target: Seq<char>, from: Option<Seq<char>>) -> Option<Seq<char>> {
    if state::is_channel_name(target) {
        Some(target)
    } else {
        match from {
            None => None,
            Some(f) => match text::split_once_at(f, '!') {
                Some((nick, _)) => Some(nick),
                None => Some(f),
            },
        }
    }
}

/// The answer to a message: `!ping` gets a pong.
pub open spec fn pong(target: Seq<char>, body: Seq<char>, from: Option<Seq<char>>) -> Option<
    Seq<char>,
> {
    if text::trimmed(body) == "!ping"@ {
        match reply_target(target, from) {
            Some(t) => Some("PRIVMSG "@ + t + " :pong"@),
            None => None,
        }
    } else {
        None
    }
}

/// `!ping` gets a pong: in the channel for a channel message, and to the
/// sender's nick for a direct one. Other messages get no answer, nor does a
/// direct one without a sender.
pub fn ping_reply(target: &str, body: &str, from: Option<&str>) -> (r: Option<String>)
    ensures
        text::opt_view(r) == pong(target@, body@, text::opt_str_view(from)),
{
    if !text::str_eq(text::trim(body), "!ping") {
        return None;
    }
    let to = if state::names_channel(target) {
        target
    } else {
        match from {
            None => {
                return None;
            },
            Some(f) => match text::split_once(f, '!') {
                Some((nick, _)) => nick,
                None => f,
            },
        }
    };
    let a = text::concat("PRIVMSG ", to);
    Some(text::concat(a.as_str(), " :pong"))
}

// ----- laws ------------------------------------------------------------------

/// A session with credentials always asks for the capability that they need.
pub proof fn credentials_imply_the_capability(net: NetworkConfig)
    requires
        net.sasl is Some,
    ensures
        caps_of(net).contains("sasl"@),
{
    let caps = text::views(net.caps@);
    if !caps.contains("sasl"@) {
        assert(caps.push("sasl"@)[caps.len() as int] == "sasl"@);
    }
}

/// An endpoint `host:port` is dialed under the name `host`, even where the host
/// has colons itself.
pub proof fn endpoint_host(host: Seq<char>, port: Seq<char>)
    requires
        !port.contains(':'),
    ensures
        host_of(host + ":"@ + port) == host,
    decreases port.len(),
{
    reveal_strlit(":");
    let s = host + ":"@ + port;
    if port.len() == 0 {
        assert(s.last() == ':');
        assert(s.take(host.len() as int) =~= host);
    } else {
        let p = port.drop_last();
        assert(s.last() == port.last());
        assert(port[port.len() - 1] == port.last());
        assert(port.contains(port.last()));
        assert(s.drop_last() =~= host + ":"@ + p);
        assert forall|i: int| 0 <= i < p.len() implies p[i] != ':' by {
            assert(port[i] == p[i]);
            assert(port.contains(port[i]));
        }
        assert(!p.contains(':'));
        endpoint_host(host, p);
        lemma_last_colon(s.drop_last());
        assert(last_colon(s) == last_colon(s.drop_last()));
        if last_colon(s) >= 0 {
            assert(s.take(last_colon(s)) =~= s.drop_last().take(last_colon(s)));
        } else {
            assert(s.drop_last() == host);
            assert((host + ":"@ + p).len() == host.len() + 1 + p.len());
        }
    }
}

} // verus!
