//! The operator tool: which request each command sends.

use crate::node::url;
use crate::node::url::percent_encode;
use crate::text;
use vstd::prelude::*;
use vstd::string::*;

verus! {

/// A value in the body of a request.
#[derive(Debug, Clone, PartialEq, Eq)]
pub enum Json {
    Null,
    Bool(bool),
    Number(i64),
    Text(String),
    Texts(Vec<String>),
}

/// What a [`Json`] value says.
pub enum JsonView {
    Null,
    Bool(bool),
    Number(i64),
    Text(Seq<char>),
    Texts(Seq<Seq<char>>),
}

impl View for Json {
    type V = JsonView;

    open spec fn view(&self) -> JsonView {
        match *self {
            Json::Null => JsonView::Null,
            Json::Bool(b) => JsonView::Bool(b),
            Json::Number(n) => JsonView::Number(n),
            Json::Text(s) => JsonView::Text(s@),
            Json::Texts(l) => JsonView::Texts(text::views(l@)),
        }
    }
}

/// The fields of a body.
pub type Fields = Vec<(String, Json)>;

/// A request to the admin API.
#[derive(Debug, Clone, PartialEq, Eq)]
pub struct Request {
    pub method: String,
    pub path: String,
    /// The fields of the JSON object in the body, if there is one.
    pub body: Option<Fields>,
}

/// What a [`Request`] says.
pub struct RequestView {
    pub method: Seq<char>,
    pub path: Seq<char>,
    pub body: Option<Seq<(Seq<char>, JsonView)>>,
}

/// The views of a list of fields.
pub open spec fn fields_view(v: Seq<(String, Json)>) -> Seq<(Seq<char>, JsonView)> {
    Seq::new(v.len(), |i: int| (v[i].0@, v[i].1@))
}

impl View for Request {
    type V = RequestView;

    open spec fn view(&self) -> RequestView {
        RequestView {
            method: self.method@,
            path: self.path@,
            body: match self.body {
                Some(f) => Some(fields_view(f@)),
                None => None,
            },
        }
    }
}

/// A request without a body.
pub open spec fn plain(method: Seq<char>, path: Seq<char>) -> RequestView {
    RequestView { method, path, body: None }
}

/// A request with a body.
pub open spec fn with_body(
    method: Seq<char>,
    path: Seq<char>,
    body: Seq<(Seq<char>, JsonView)>,
) -> RequestView {
    RequestView { method, path, body: Some(body) }
}

fn request(method: &str, path: &str) -> (r: Request)
    ensures
        r@ == plain(method@, path@),
{
    Request { method: text::owned(method), path: text::owned(path), body: None }
}

fn request_with(method: &str, path: &str, body: Fields) -> (r: Request)
    ensures
        r@ == with_body(method@, path@, fields_view(body@)),
{
    Request { method: text::owned(method), path: text::owned(path), body: Some(body) }
}

fn put(fields: &mut Fields, key: &str, value: Json)
    ensures
        fields_view(final(fields)@) == fields_view(old(fields)@).push((key@, value@)),
{
    let ghost before = fields@;
    fields.push((text::owned(key), value));
    assert(fields_view(fields@) =~= fields_view(before).push((key@, value@)));
}

fn no_fields() -> (f: Fields)
    ensures
        fields_view(f@) == Seq::<(Seq<char>, JsonView)>::empty(),
{
    let f: Fields = Vec::new();
    assert(fields_view(f@) =~= Seq::empty());
    f
}

/// `fields` and a text field more, if there is a value.
pub open spec fn and_text(
    fields: Seq<(Seq<char>, JsonView)>,
    key: Seq<char>,
    value: Option<String>,
) -> Seq<(Seq<char>, JsonView)> {
    match value {
        Some(v) => fields.push((key, JsonView::Text(v@))),
        None => fields,
    }
}

fn put_text(fields: &mut Fields, key: &str, value: &Option<String>)
    ensures
        fields_view(final(fields)@) == and_text(fields_view(old(fields)@), key@, *value),
{
    if let Some(v) = value {
        put(fields, key, Json::Text(v.clone()));
    }
}

/// The path of an item under a collection.
pub open spec fn item_path(collection: Seq<char>, item: Seq<char>) -> Seq<char> {
    collection + url::segment(item)
}

fn item(collection: &str, name: &str) -> (s: String)
    ensures
        s@ == item_path(collection@, name@),
{
    text::concat(collection, percent_encode(name).as_str())
}

// ----- users --------------------------------------------------------------------

/// A command about users.
#[derive(Debug, Clone, PartialEq, Eq)]
pub enum UsersCommand {
    List,
    Show { handle: String },
    Upsert {
        handle: String,
        flags: Option<String>,
        bot: bool,
        comment: Option<String>,
        hosts: Vec<String>,
    },
    Delete { handle: String },
    Chattr { handle: String, diff: String },
}

/// The request of a command about users.
pub open spec fn users_request(cmd: UsersCommand) -> RequestView {
    match cmd {
        UsersCommand::List => plain("GET"@, "/v1/users"@),
        UsersCommand::Show { handle } => plain("GET"@, item_path("/v1/users/"@, handle@)),
        UsersCommand::Upsert { handle, flags, bot, comment, hosts } => with_body(
            "POST"@,
            "/v1/users"@,
            and_text(
                and_text(
                    seq![
                        ("handle"@, JsonView::Text(handle@)),
                        ("is_bot"@, JsonView::Bool(bot)),
                        ("hosts"@, JsonView::Texts(text::views(hosts@))),
                    ],
                    "global_flags"@,
                    flags,
                ),
                "comment"@,
                comment,
            ),
        ),
        UsersCommand::Delete { handle } => plain("DELETE"@, item_path("/v1/users/"@, handle@)),
        UsersCommand::Chattr { handle, diff } => with_body(
            "PATCH"@,
            item_path("/v1/users/"@, handle@),
            seq![("flags_diff"@, JsonView::Text(diff@))],
        ),
    }
}

/// The request of a command about users.
pub fn users(cmd: &UsersCommand) -> (r: Request)
    ensures
        r@ == users_request(*cmd),
{
    match cmd {
        UsersCommand::List => request("GET", "/v1/users"),
        UsersCommand::Show { handle } => request(
            "GET",
            item("/v1/users/", handle.as_str()).as_str(),
        ),
        UsersCommand::Upsert { handle, flags, bot, comment, hosts } => {
            let mut body = no_fields();
            put(&mut body, "handle", Json::Text(handle.clone()));
            put(&mut body, "is_bot", Json::Bool(*bot));
            put(&mut body, "hosts", Json::Texts(text::copy_list(hosts)));
            assert(fields_view(body@) =~= seq![
                ("handle"@, JsonView::Text(handle@)),
                ("is_bot"@, JsonView::Bool(*bot)),
                ("hosts"@, JsonView::Texts(text::views(hosts@))),
            ]);
            put_text(&mut body, "global_flags", flags);
            put_text(&mut body, "comment", comment);
            request_with("POST", "/v1/users", body)
        },
        UsersCommand::Delete { handle } => request(
            "DELETE",
            item("/v1/users/", handle.as_str()).as_str(),
        ),
        UsersCommand::Chattr { handle, diff } => {
            let mut body = no_fields();
            put(&mut body, "flags_diff", Json::Text(diff.clone()));
            assert(fields_view(body@) =~= seq![("flags_diff"@, JsonView::Text(diff@))]);
            request_with("PATCH", item("/v1/users/", handle.as_str()).as_str(), body)
        },
    }
}

// ----- channels -----------------------------------------------------------------

/// A command about channels.
#[derive(Debug, Clone, PartialEq, Eq)]
pub enum ChannelsCommand {
    List,
    Show { name: String },
    Upsert { name: String },
    Delete { name: String },
}

/// The request of a command about channels.
pub open spec fn channels_request(cmd: ChannelsCommand) -> RequestView {
    match cmd {
        ChannelsCommand::List => plain("GET"@, "/v1/channels"@),
        ChannelsCommand::Show { name } => plain("GET"@, item_path("/v1/channels/"@, name@)),
        ChannelsCommand::Upsert { name } => with_body(
            "POST"@,
            "/v1/channels"@,
            seq![("name"@, JsonView::Text(name@))],
        ),
        ChannelsCommand::Delete { name } => plain("DELETE"@, item_path("/v1/channels/"@, name@)),
    }
}

/// The request of a command about channels.
pub fn channels(cmd: &ChannelsCommand) -> (r: Request)
    ensures
        r@ == channels_request(*cmd),
{
    match cmd {
        ChannelsCommand::List => request("GET", "/v1/channels"),
        ChannelsCommand::Show { name } => request(
            "GET",
            item("/v1/channels/", name.as_str()).as_str(),
        ),
        ChannelsCommand::Upsert { name } => {
            let mut body = no_fields();
            put(&mut body, "name", Json::Text(name.clone()));
            assert(fields_view(body@) =~= seq![("name"@, JsonView::Text(name@))]);
            request_with("POST", "/v1/channels", body)
        },
        ChannelsCommand::Delete { name } => request(
            "DELETE",
            item("/v1/channels/", name.as_str()).as_str(),
        ),
    }
}

// ----- channel settings ---------------------------------------------------------

/// A command about the settings of a channel.
#[derive(Debug, Clone, PartialEq, Eq)]
pub enum ChansetCommand {
    Get { name: String },
    Put {
        name: String,
        flags: Option<String>,
        mode_pls: Option<String>,
        mode_mns: Option<String>,
        limit: Option<i32>,
        no_limit: bool,
        key: Option<String>,
        no_key: bool,
        topic: Option<String>,
        no_topic: bool,
    },
}

/// `fields` and one more: a text, or null to clear it, or neither.
pub open spec fn and_text_or_null(
    fields: Seq<(Seq<char>, JsonView)>,
    key: Seq<char>,
    value: Option<String>,
    clear: bool,
) -> Seq<(Seq<char>, JsonView)> {
    match value {
        Some(v) => fields.push((key, JsonView::Text(v@))),
        None => if clear {
            fields.push((key, JsonView::Null))
        } else {
            fields
        },
    }
}

/// `fields` and the limit, or null to clear it, or neither.
pub open spec fn and_limit(
    fields: Seq<(Seq<char>, JsonView)>,
    limit: Option<i32>,
    clear: bool,
) -> Seq<(Seq<char>, JsonView)> {
    match limit {
        Some(l) => fields.push(("limit_prot"@, JsonView::Number(l as i64))),
        None => if clear {
            fields.push(("limit_prot"@, JsonView::Null))
        } else {
            fields
        },
    }
}

/// The path of a channel's settings.
pub open spec fn settings_path(name: Seq<char>) -> Seq<char> {
    item_path("/v1/channels/"@, name) + "/settings"@
}

/// The request of a command about settings. Only what is given is sent.
pub open spec fn chanset_request(cmd: ChansetCommand) -> RequestView {
    match cmd {
        ChansetCommand::Get { name } => plain("GET"@, settings_path(name@)),
        ChansetCommand::Put {
            name,
            flags,
            mode_pls,
            mode_mns,
            limit,
            no_limit,
            key,
            no_key,
            topic,
            no_topic,
        } => {
            let a = and_text(Seq::empty(), "flags"@, flags);
            let b = and_text(a, "mode_pls"@, mode_pls);
            let c = and_text(b, "mode_mns"@, mode_mns);
            let d = and_limit(c, limit, no_limit);
            let e = and_text_or_null(d, "key_prot"@, key, no_key);
            let f = and_text_or_null(e, "topic_saved"@, topic, no_topic);
            with_body("PUT"@, settings_path(name@), f)
        },
    }
}

fn put_text_or_null(fields: &mut Fields, key: &str, value: &Option<String>, clear: bool)
    ensures
        fields_view(final(fields)@) == and_text_or_null(
            fields_view(old(fields)@),
            key@,
            *value,
            clear,
        ),
{
    match value {
        Some(v) => put(fields, key, Json::Text(v.clone())),
        None => {
            if clear {
                put(fields, key, Json::Null);
            }
        },
    }
}

fn settings_of(name: &str) -> (s: String)
    ensures
        s@ == settings_path(name@),
{
    text::concat(item("/v1/channels/", name).as_str(), "/settings")
}

/// The request of a command about settings.
pub fn chanset(cmd: &ChansetCommand) -> (r: Request)
    ensures
        r@ == chanset_request(*cmd),
{
    match cmd {
        ChansetCommand::Get { name } => request("GET", settings_of(name.as_str()).as_str()),
        ChansetCommand::Put {
            name,
            flags,
            mode_pls,
            mode_mns,
            limit,
            no_limit,
            key,
            no_key,
            topic,
            no_topic,
        } => {
            let mut body = no_fields();
            put_text(&mut body, "flags", flags);
            put_text(&mut body, "mode_pls", mode_pls);
            put_text(&mut body, "mode_mns", mode_mns);
            match limit {
                Some(l) => put(&mut body, "limit_prot", Json::Number(*l as i64)),
                None => {
                    if *no_limit {
                        put(&mut body, "limit_prot", Json::Null);
                    }
                },
            }
            put_text_or_null(&mut body, "key_prot", key, *no_key);
            put_text_or_null(&mut body, "topic_saved", topic, *no_topic);
            request_with("PUT", settings_of(name.as_str()).as_str(), body)
        },
    }
}

/// The path of a user's flags in a channel.
pub open spec fn channel_user_path(channel: Seq<char>, handle: Seq<char>) -> Seq<char> {
    item_path("/v1/channels/"@, channel) + "/users/"@ + url::segment(handle)
}

/// The request that applies a flag diff to a user in a channel.
pub fn chattr_channel(handle: &str, channel: &str, diff: &str) -> (r: Request)
    ensures
        r@ == with_body(
            "PUT"@,
            channel_user_path(channel@, handle@),
            seq![("flags_diff"@, JsonView::Text(diff@))],
        ),
{
    let a = text::concat(item("/v1/channels/", channel).as_str(), "/users/");
    let path = text::concat(a.as_str(), percent_encode(handle).as_str());
    let mut body = no_fields();
    put(&mut body, "flags_diff", Json::Text(text::owned(diff)));
    assert(fields_view(body@) =~= seq![("flags_diff"@, JsonView::Text(diff@))]);
    request_with("PUT", path.as_str(), body)
}

// ----- masks --------------------------------------------------------------------

/// A command about masks.
#[derive(Debug, Clone, PartialEq, Eq)]
pub enum MaskCommand {
    List { channel: String, kind: String },
    Add {
        channel: String,
        mask: String,
        kind: String,
        reason: Option<String>,
        expires_at: Option<i64>,
        sticky: bool,
    },
    Remove { id: String },
}

/// The request of a command about masks.
pub open spec fn mask_request(cmd: MaskCommand) -> RequestView {
    match cmd {
        MaskCommand::List { channel, kind } => plain(
            "GET"@,
            item_path("/v1/channels/"@, channel@) + "/masks?kind="@ + url::segment(kind@),
        ),
        MaskCommand::Add { channel, mask, kind, reason, expires_at, sticky } => {
            let a = and_text(
                seq![
                    ("kind"@, JsonView::Text(kind@)),
                    ("mask"@, JsonView::Text(mask@)),
                    ("sticky"@, JsonView::Bool(sticky)),
                ],
                "reason"@,
                reason,
            );
            let b = match expires_at {
                Some(e) => a.push(("expires_at"@, JsonView::Number(e))),
                None => a,
            };
            with_body("POST"@, item_path("/v1/channels/"@, channel@) + "/masks"@, b)
        },
        MaskCommand::Remove { id } => plain("DELETE"@, item_path("/v1/masks/"@, id@)),
    }
}

/// The request of a command about masks.
pub fn mask(cmd: &MaskCommand) -> (r: Request)
    ensures
        r@ == mask_request(*cmd),
{
    match cmd {
        MaskCommand::List { channel, kind } => {
            let a = text::concat(
                item("/v1/channels/", channel.as_str()).as_str(),
                "/masks?kind=",
            );
            let path = text::concat(a.as_str(), percent_encode(kind.as_str()).as_str());
            request("GET", path.as_str())
        },
        MaskCommand::Add { channel, mask, kind, reason, expires_at, sticky } => {
            let mut body = no_fields();
            put(&mut body, "kind", Json::Text(kind.clone()));
            put(&mut body, "mask", Json::Text(mask.clone()));
            put(&mut body, "sticky", Json::Bool(*sticky));
            assert(fields_view(body@) =~= seq![
                ("kind"@, JsonView::Text(kind@)),
                ("mask"@, JsonView::Text(mask@)),
                ("sticky"@, JsonView::Bool(*sticky)),
            ]);
            put_text(&mut body, "reason", reason);
            if let Some(e) = expires_at {
                put(&mut body, "expires_at", Json::Number(*e));
            }
            let path = text::concat(item("/v1/channels/", channel.as_str()).as_str(), "/masks");
            request_with("POST", path.as_str(), body)
        },
        MaskCommand::Remove { id } => request("DELETE", item("/v1/masks/", id.as_str()).as_str()),
    }
}

// ----- audit log ----------------------------------------------------------------

/// The request for the audit log.
pub fn audit(limit: usize, actor: Option<&str>) -> (r: Request)
    ensures
        r@ == plain(
            "GET"@,
            match actor {
                Some(a) => "/v1/audit?limit="@ + text::decimal(limit as nat) + "&actor="@
                    + url::segment(a@),
                None => "/v1/audit?limit="@ + text::decimal(limit as nat),
            },
        ),
{
    let mut path = text::concat(
        "/v1/audit?limit=",
        text::decimal_string(limit as u64).as_str(),
    );
    if let Some(a) = actor {
        path.append("&actor=");
        path.append(percent_encode(a).as_str());
    }
    request("GET", path.as_str())
}

/// The request that exchanges a password for a token.
pub fn login(handle: &str, password: &str) -> (r: Request)
    ensures
        r@ == with_body(
            "POST"@,
            "/v1/login"@,
            seq![
                ("handle"@, JsonView::Text(handle@)),
                ("password"@, JsonView::Text(password@)),
            ],
        ),
{
    let mut body = no_fields();
    put(&mut body, "handle", Json::Text(text::owned(handle)));
    put(&mut body, "password", Json::Text(text::owned(password)));
    assert(fields_view(body@) =~= seq![
        ("handle"@, JsonView::Text(handle@)),
        ("password"@, JsonView::Text(password@)),
    ]);
    request_with("POST", "/v1/login", body)
}

// ----- the client ---------------------------------------------------------------

/// The address of the API: the one given, or that of the listener, which a
/// client on the same machine reaches at the loopback address where it listens
/// everywhere. `host` is the listener's address as text.
pub fn base_url(base: Option<&str>, host: &str, everywhere: bool, port: u16, tls: bool) -> (s:
    String)
    ensures
        s@ == match base {
            Some(b) => b@,
            None => (if tls {
                "https"@
            } else {
                "http"@
            }) + "://"@ + (if everywhere {
                "127.0.0.1"@
            } else {
                host@
            }) + ":"@ + text::decimal(port as nat),
        },
{
    match base {
        Some(b) => text::owned(b),
        None => {
            let scheme = if tls { "https" } else { "http" };
            let host = if everywhere { "127.0.0.1" } else { host };
            let a = text::concat(scheme, "://");
            let b = text::concat(a.as_str(), host);
            let c = text::concat(b.as_str(), ":");
            text::concat(c.as_str(), text::decimal_string(port as u64).as_str())
        },
    }
}

/// The name that an operator goes by: the one given, or the login name, which
/// one of two environment variables holds.
pub fn actor_name(actor: Option<&str>, user: Option<&str>, username: Option<&str>) -> (s: String)
    ensures
        s@ == match actor {
            Some(a) => a@,
            None => "cli:"@ + match user {
                Some(u) => u@,
                None => match username {
                    Some(u) => u@,
                    None => "unknown"@,
                },
            },
        },
{
    match actor {
        Some(a) => text::owned(a),
        None => {
            let who = match user {
                Some(u) => u,
                None => match username {
                    Some(u) => u,
                    None => "unknown",
                },
            };
            text::concat("cli:", who)
        },
    }
}

/// Whether to present a client certificate: certificate and key come together
/// or not at all.
pub fn client_auth(has_cert: bool, has_key: bool) -> (r: Result<bool, &'static str>)
    ensures
        match r {
            Ok(b) => has_cert == has_key && b == has_cert,
            Err(m) => has_cert != has_key && m@ == if has_cert {
                "--cert requires --key"@
            } else {
                "--key requires --cert"@
            },
        },
{
    if has_cert && !has_key {
        Err("--cert requires --key")
    } else if has_key && !has_cert {
        Err("--key requires --cert")
    } else {
        Ok(has_cert)
    }
}

} // verus!
