//! IRC server state machine.
//!
//! Consumes parsed [`Message`]s and maintains an in-memory model of:
//!
//! - our own nickname (after RPL_WELCOME);
//! - per channel: members, topic, who set the topic and when;
//! - per member: nick, user, host and the prefix modes held (`+o`, `+v`).
//!
//! Each message yields the [`StateEvent`]s that the session routes onwards.
//! What one message does to the state is the function [`step`] on the views.

use crate::char_set::CharSet;
use crate::ircd::message::{Command, CommandView, Message, MessageView};
use crate::order;
use crate::text;
use crate::text_map::{Copied, TextMap};
use vstd::prelude::*;
use vstd::string::*;

verus! {

// ----- prefix map ------------------------------------------------------------

/// Mode-prefix mapping declared by the server in `005 RPL_ISUPPORT`'s
/// `PREFIX=(modes)prefixes` token. Its view is the list of
/// `(mode letter, prefix character)` pairs, highest priority first.
#[derive(Debug, PartialEq, Eq)]
pub struct PrefixMap {
    entries: Vec<(char, char)>,
}

impl View for PrefixMap {
    type V = Seq<(char, char)>;

    closed spec fn view(&self) -> Seq<(char, char)> {
        self.entries@
    }
}

/// The mapping `(ov)@+`, in force until the server declares another.
pub open spec fn default_prefixes() -> Seq<(char, char)> {
    seq![('o', '@'), ('v', '+')]
}

/// The mapping that a `(modes)prefixes` token declares. A malformed token
/// declares the default.
pub open spec fn declared_prefixes(token: Seq<char>) -> Seq<(char, char)> {
    match text::strip_prefix_char(token, '(') {
        None => default_prefixes(),
        Some(rest) => match text::split_once_at(rest, ')') {
            None => default_prefixes(),
            Some((modes, prefixes)) => if modes.len() != prefixes.len() {
                default_prefixes()
            } else {
                Seq::new(modes.len(), |i: int| (modes[i], prefixes[i]))
            },
        },
    }
}

/// The mode of the first pair whose prefix is `prefix`.
pub open spec fn mode_of_prefix(pairs: Seq<(char, char)>, prefix: char) -> Option<char>
    decreases pairs.len(),
{
    if pairs.len() == 0 {
        None
    } else if pairs[0].1 == prefix {
        Some(pairs[0].0)
    } else {
        mode_of_prefix(pairs.drop_first(), prefix)
    }
}

/// Whether `c` is a prefix of the mapping.
pub open spec fn has_prefix(pairs: Seq<(char, char)>, c: char) -> bool {
    exists|i: int| 0 <= i < pairs.len() && (#[trigger] pairs[i]).1 == c
}

/// Whether `mode` is a prefix mode of the mapping.
pub open spec fn has_mode(pairs: Seq<(char, char)>, mode: char) -> bool {
    exists|i: int| 0 <= i < pairs.len() && (#[trigger] pairs[i]).0 == mode
}

/// A prefix has a mode, and only a prefix has one.
pub proof fn prefix_has_mode(pairs: Seq<(char, char)>, c: char)
    ensures
        has_prefix(pairs, c) == mode_of_prefix(pairs, c) is Some,
        mode_of_prefix(pairs, c) matches Some(m) ==> has_mode(pairs, m),
    decreases pairs.len(),
{
    if pairs.len() > 0 {
        let t = pairs.drop_first();
        prefix_has_mode(t, c);
        if pairs[0].1 != c {
            if has_prefix(pairs, c) {
                let i = choose|i: int| 0 <= i < pairs.len() && (#[trigger] pairs[i]).1 == c;
                assert(t[i - 1].1 == c);
            }
            if has_prefix(t, c) {
                let i = choose|i: int| 0 <= i < t.len() && (#[trigger] t[i]).1 == c;
                assert(pairs[i + 1].1 == c);
            }
            if let Some(m) = mode_of_prefix(t, c) {
                let i = choose|i: int| 0 <= i < t.len() && (#[trigger] t[i]).0 == m;
                assert(pairs[i + 1].0 == m);
            }
        }
    }
}

impl Clone for PrefixMap {
    fn clone(&self) -> (r: Self)
        ensures
            r@ == self@,
    {
        let mut entries: Vec<(char, char)> = Vec::new();
        let mut i: usize = 0;
        while i < self.entries.len()
            invariant
                i <= self.entries@.len(),
                entries@ =~= self.entries@.take(i as int),
            decreases self.entries.len() - i,
        {
            entries.push(self.entries[i]);
            i = i + 1;
        }
        assert(entries@ =~= self.entries@);
        PrefixMap { entries }
    }
}

impl Default for PrefixMap {
    fn default() -> (p: Self)
        ensures
            p@ == default_prefixes(),
    {
        let mut entries: Vec<(char, char)> = Vec::new();
        entries.push(('o', '@'));
        entries.push(('v', '+'));
        assert(entries@ =~= default_prefixes());
        PrefixMap { entries }
    }
}

impl PrefixMap {
    /// Parse the value of a `PREFIX=` token, `(modes)prefixes`. Returns the
    /// default if the token is malformed.
    #[must_use]
    pub fn parse(token: &str) -> (p: Self)
        ensures
            p@ == declared_prefixes(token@),
    {
        let rest = match text::strip_char(token, '(') {
            Some(rest) => rest,
            None => {
                return PrefixMap::default();
            },
        };
        let (modes, prefixes) = match text::split_once(rest, ')') {
            Some(p) => p,
            None => {
                return PrefixMap::default();
            },
        };
        let ms = text::chars_of(modes);
        let ps = text::chars_of(prefixes);
        if ms.len() != ps.len() {
            return PrefixMap::default();
        }
        let mut entries: Vec<(char, char)> = Vec::new();
        let mut i: usize = 0;
        while i < ms.len()
            invariant
                ms.len() == ps.len(),
                i <= ms.len(),
                entries@ == Seq::new(i as nat, |j: int| (ms@[j], ps@[j])),
            decreases ms.len() - i,
        {
            entries.push((ms[i], ps[i]));
            i = i + 1;
            assert(entries@ =~= Seq::new(i as nat, |j: int| (ms@[j], ps@[j])));
        }
        assert(entries@ =~= declared_prefixes(token@));
        PrefixMap { entries }
    }

    /// Mode letter associated with a prefix character (`'@'` to `'o'`).
    #[must_use]
    pub fn mode_for_prefix(&self, prefix: char) -> (r: Option<char>)
        ensures
            r == mode_of_prefix(self@, prefix),
    {
        let mut i: usize = 0;
        assert(self.entries@.skip(0) =~= self.entries@);
        while i < self.entries.len()
            invariant
                i <= self.entries@.len(),
                mode_of_prefix(self@, prefix) == mode_of_prefix(
                    self.entries@.skip(i as int),
                    prefix,
                ),
            decreases self.entries.len() - i,
        {
            let (m, p) = self.entries[i];
            assert(self.entries@.skip(i as int).drop_first() =~= self.entries@.skip(i + 1));
            if p == prefix {
                return Some(m);
            }
            i = i + 1;
        }
        None
    }

    /// Whether a character is a known prefix, to be stripped from the names in
    /// 353 RPL_NAMREPLY.
    #[must_use]
    pub fn is_prefix(&self, c: char) -> (b: bool)
        ensures
            b == has_prefix(self@, c),
    {
        let m = self.mode_for_prefix(c);
        proof {
            prefix_has_mode(self@, c);
        }
        m.is_some()
    }

    /// Whether a mode letter changes a prefix.
    #[must_use]
    pub fn is_prefix_mode(&self, mode: char) -> (b: bool)
        ensures
            b == has_mode(self@, mode),
    {
        let mut i: usize = 0;
        while i < self.entries.len()
            invariant
                i <= self.entries@.len(),
                forall|j: int| 0 <= j < i ==> (#[trigger] self.entries@[j]).0 != mode,
            decreases self.entries.len() - i,
        {
            if self.entries[i].0 == mode {
                assert(self@[i as int].0 == mode);
                return true;
            }
            i = i + 1;
        }
        false
    }
}

// ----- member and channel ----------------------------------------------------

/// One member of a channel.
#[derive(Debug, PartialEq, Eq)]
pub struct Member {
    pub nick: String,
    pub user: Option<String>,
    pub host: Option<String>,
    /// Mode letters currently held (e.g. `{'o', 'v'}`), in order.
    pub modes: CharSet,
}

/// What is known of a [`Member`].
pub struct MemberView {
    pub nick: Seq<char>,
    pub user: Option<Seq<char>>,
    pub host: Option<Seq<char>>,
    pub modes: Set<char>,
}

impl View for Member {
    type V = MemberView;

    open spec fn view(&self) -> MemberView {
        MemberView {
            nick: self.nick@,
            user: text::opt_view(self.user),
            host: text::opt_view(self.host),
            modes: self.modes@,
        }
    }
}

impl Clone for Member {
    fn clone(&self) -> (r: Self)
        ensures
            r@ == self@,
    {
        Member {
            nick: self.nick.clone(),
            user: text::opt_clone(&self.user),
            host: text::opt_clone(&self.host),
            modes: self.modes.clone(),
        }
    }
}

impl Copied for Member {
    fn copied(&self) -> (r: Self) {
        self.clone()
    }
}

impl Member {
    /// A member that holds no mode.
    pub fn new(nick: String, user: Option<String>, host: Option<String>) -> (m: Self)
        ensures
            m@ == (MemberView {
                nick: nick@,
                user: text::opt_view(user),
                host: text::opt_view(host),
                modes: Set::empty(),
            }),
    {
        Member { nick, user, host, modes: CharSet::new() }
    }
}

/// One IRC channel as observed from this connection.
#[derive(Debug, PartialEq, Eq)]
pub struct ChannelState {
    pub name: String,
    /// Members, keyed by the lower case of the nick.
    pub members: TextMap<Member>,
    pub topic: Option<String>,
    pub topic_set_by: Option<String>,
    pub topic_set_at: Option<i64>,
}

/// What is known of a channel.
pub struct ChannelView {
    pub name: Seq<char>,
    pub members: Map<Seq<char>, MemberView>,
    pub topic: Option<Seq<char>>,
    pub topic_set_by: Option<Seq<char>>,
    pub topic_set_at: Option<i64>,
}

impl View for ChannelState {
    type V = ChannelView;

    open spec fn view(&self) -> ChannelView {
        ChannelView {
            name: self.name@,
            members: self.members@,
            topic: text::opt_view(self.topic),
            topic_set_by: text::opt_view(self.topic_set_by),
            topic_set_at: self.topic_set_at,
        }
    }
}

/// A channel of which only the name is known.
pub open spec fn fresh_channel(name: Seq<char>) -> ChannelView {
    ChannelView {
        name,
        members: Map::empty(),
        topic: None,
        topic_set_by: None,
        topic_set_at: None,
    }
}

impl ChannelState {
    /// A channel of which only the name is known.
    pub fn with_name(name: String) -> (c: Self)
        ensures
            c@ == fresh_channel(name@),
    {
        ChannelState {
            name,
            members: TextMap::new(),
            topic: None,
            topic_set_by: None,
            topic_set_at: None,
        }
    }
}

impl Default for ChannelState {
    /// A channel without a name.
    fn default() -> (c: Self)
        ensures
            c@ == fresh_channel(Seq::empty()),
    {
        ChannelState::with_name(String::new())
    }
}

impl Clone for ChannelState {
    fn clone(&self) -> (r: Self)
        ensures
            r@ == self@,
    {
        ChannelState {
            name: self.name.clone(),
            members: self.members.clone(),
            topic: text::opt_clone(&self.topic),
            topic_set_by: text::opt_clone(&self.topic_set_by),
            topic_set_at: self.topic_set_at,
        }
    }
}

impl Copied for ChannelState {
    fn copied(&self) -> (r: Self) {
        self.clone()
    }
}

// ----- events ----------------------------------------------------------------

/// High-level events emitted by [`ServerState::process`].
#[derive(Debug, PartialEq, Eq)]
pub enum StateEvent {
    /// Server sent 001 RPL_WELCOME; registration is complete.
    Welcomed { nick: String },
    /// A client joined a channel (us if `is_self`).
    Joined { channel: String, member: Member, is_self: bool },
    /// A client parted a channel.
    Parted { channel: String, nick: String, reason: Option<String>, is_self: bool },
    /// A client was kicked.
    Kicked {
        channel: String,
        target: String,
        by: String,
        reason: Option<String>,
        is_self_target: bool,
    },
    /// A client changed nicks. Affects all channels they share with us.
    NickChanged { old_nick: String, new_nick: String, is_self: bool },
    /// A client quit; removes them from all our tracked channels.
    Quit { nick: String, reason: Option<String> },
    /// Topic state for a channel changed (via 332/333 numerics or TOPIC).
    TopicSet { channel: String, topic: String, set_by: Option<String>, set_at: Option<i64> },
    /// Channel or user modes changed. Prefix modes have been applied to the
    /// members by then; the event also fires so consumers can react.
    ModeChanged { target: String, by: String, modes: String, args: Vec<String> },
    /// A PRIVMSG was received.
    Privmsg { from: Option<String>, target: String, body: String },
    /// A NOTICE was received.
    Notice { from: Option<String>, target: String, body: String },
    /// Server PING; the consumer should respond with PONG and the token.
    Ping { token: String },
}

/// What a [`StateEvent`] says.
pub enum EventView {
    Welcomed { nick: Seq<char> },
    Joined { channel: Seq<char>, member: MemberView, is_self: bool },
    Parted { channel: Seq<char>, nick: Seq<char>, reason: Option<Seq<char>>, is_self: bool },
    Kicked {
        channel: Seq<char>,
        target: Seq<char>,
        by: Seq<char>,
        reason: Option<Seq<char>>,
        is_self_target: bool,
    },
    NickChanged { old_nick: Seq<char>, new_nick: Seq<char>, is_self: bool },
    Quit { nick: Seq<char>, reason: Option<Seq<char>> },
    TopicSet {
        channel: Seq<char>,
        topic: Seq<char>,
        set_by: Option<Seq<char>>,
        set_at: Option<i64>,
    },
    ModeChanged { target: Seq<char>, by: Seq<char>, modes: Seq<char>, args: Seq<Seq<char>> },
    Privmsg { from: Option<Seq<char>>, target: Seq<char>, body: Seq<char> },
    Notice { from: Option<Seq<char>>, target: Seq<char>, body: Seq<char> },
    Ping { token: Seq<char> },
}

impl View for StateEvent {
    type V = EventView;

    open spec fn view(&self) -> EventView {
        match *self {
            StateEvent::Welcomed { nick } => EventView::Welcomed { nick: nick@ },
            StateEvent::Joined { channel, member, is_self } => EventView::Joined {
                channel: channel@,
                member: member@,
                is_self,
            },
            StateEvent::Parted { channel, nick, reason, is_self } => EventView::Parted {
                channel: channel@,
                nick: nick@,
                reason: text::opt_view(reason),
                is_self,
            },
            StateEvent::Kicked { channel, target, by, reason, is_self_target } => EventView::Kicked {
                channel: channel@,
                target: target@,
                by: by@,
                reason: text::opt_view(reason),
                is_self_target,
            },
            StateEvent::NickChanged { old_nick, new_nick, is_self } => EventView::NickChanged {
                old_nick: old_nick@,
                new_nick: new_nick@,
                is_self,
            },
            StateEvent::Quit { nick, reason } => EventView::Quit {
                nick: nick@,
                reason: text::opt_view(reason),
            },
            StateEvent::TopicSet { channel, topic, set_by, set_at } => EventView::TopicSet {
                channel: channel@,
                topic: topic@,
                set_by: text::opt_view(set_by),
                set_at,
            },
            StateEvent::ModeChanged { target, by, modes, args } => EventView::ModeChanged {
                target: target@,
                by: by@,
                modes: modes@,
                args: text::views(args@),
            },
            StateEvent::Privmsg { from, target, body } => EventView::Privmsg {
                from: text::opt_view(from),
                target: target@,
                body: body@,
            },
            StateEvent::Notice { from, target, body } => EventView::Notice {
                from: text::opt_view(from),
                target: target@,
                body: body@,
            },
            StateEvent::Ping { token } => EventView::Ping { token: token@ },
        }
    }
}

impl Clone for StateEvent {
    fn clone(&self) -> (r: Self)
        ensures
            r@ == self@,
    {
        match self {
            StateEvent::Welcomed { nick } => StateEvent::Welcomed { nick: nick.clone() },
            StateEvent::Joined { channel, member, is_self } => StateEvent::Joined {
                channel: channel.clone(),
                member: member.clone(),
                is_self: *is_self,
            },
            StateEvent::Parted { channel, nick, reason, is_self } => StateEvent::Parted {
                channel: channel.clone(),
                nick: nick.clone(),
                reason: text::opt_clone(reason),
                is_self: *is_self,
            },
            StateEvent::Kicked { channel, target, by, reason, is_self_target } => {
                StateEvent::Kicked {
                    channel: channel.clone(),
                    target: target.clone(),
                    by: by.clone(),
                    reason: text::opt_clone(reason),
                    is_self_target: *is_self_target,
                }
            },
            StateEvent::NickChanged { old_nick, new_nick, is_self } => StateEvent::NickChanged {
                old_nick: old_nick.clone(),
                new_nick: new_nick.clone(),
                is_self: *is_self,
            },
            StateEvent::Quit { nick, reason } => StateEvent::Quit {
                nick: nick.clone(),
                reason: text::opt_clone(reason),
            },
            StateEvent::TopicSet { channel, topic, set_by, set_at } => StateEvent::TopicSet {
                channel: channel.clone(),
                topic: topic.clone(),
                set_by: text::opt_clone(set_by),
                set_at: *set_at,
            },
            StateEvent::ModeChanged { target, by, modes, args } => StateEvent::ModeChanged {
                target: target.clone(),
                by: by.clone(),
                modes: modes.clone(),
                args: text::copy_list(args),
            },
            StateEvent::Privmsg { from, target, body } => StateEvent::Privmsg {
                from: text::opt_clone(from),
                target: target.clone(),
                body: body.clone(),
            },
            StateEvent::Notice { from, target, body } => StateEvent::Notice {
                from: text::opt_clone(from),
                target: target.clone(),
                body: body.clone(),
            },
            StateEvent::Ping { token } => StateEvent::Ping { token: token.clone() },
        }
    }
}

/// The views of a list of events.
pub open spec fn event_views(v: Seq<StateEvent>) -> Seq<EventView> {
    Seq::new(v.len(), |i: int| v[i]@)
}

/// A list of one event.
fn one(e: StateEvent) -> (v: Vec<StateEvent>)
    ensures
        event_views(v@) == seq![e@],
{
    let mut v: Vec<StateEvent> = Vec::new();
    v.push(e);
    assert(event_views(v@) =~= seq![e@]);
    v
}

/// No events.
fn none() -> (v: Vec<StateEvent>)
    ensures
        event_views(v@) == Seq::<EventView>::empty(),
{
    let v: Vec<StateEvent> = Vec::new();
    assert(event_views(v@) =~= Seq::<EventView>::empty());
    v
}

// ----- server state ----------------------------------------------------------

/// Aggregate state for one IRC server connection.
#[derive(Debug, PartialEq, Eq)]
pub struct ServerState {
    /// Our nickname. Set on RPL_WELCOME (001) and updated on self NICK.
    pub my_nick: Option<String>,
    /// Channels we're in, keyed by the lower case of the channel name.
    pub channels: TextMap<ChannelState>,
    /// Mode-prefix mapping (`(ov)@+` until 005 PREFIX is seen).
    pub prefix_map: PrefixMap,
    /// True once 001 RPL_WELCOME has been received.
    pub registered: bool,
}

/// What is known of a server connection.
pub struct ServerView {
    pub my_nick: Option<Seq<char>>,
    pub channels: Map<Seq<char>, ChannelView>,
    pub prefixes: Seq<(char, char)>,
    pub registered: bool,
}

impl View for ServerState {
    type V = ServerView;

    open spec fn view(&self) -> ServerView {
        ServerView {
            my_nick: text::opt_view(self.my_nick),
            channels: self.channels@,
            prefixes: self.prefix_map@,
            registered: self.registered,
        }
    }
}

impl ServerView {
    /// Whether `nick` is us.
    pub open spec fn is_self(self, nick: Seq<char>) -> bool {
        match self.my_nick {
            Some(me) => text::lower(me) == text::lower(nick),
            None => false,
        }
    }

    /// The channel called `name`, or a fresh one.
    pub open spec fn channel_or_fresh(self, name: Seq<char>) -> ChannelView {
        if self.channels.contains_key(text::lower(name)) {
            self.channels[text::lower(name)]
        } else {
            fresh_channel(name)
        }
    }

    /// The state in which the channel called `name` is `c`.
    pub open spec fn with_channel(self, name: Seq<char>, c: ChannelView) -> ServerView {
        ServerView { channels: self.channels.insert(text::lower(name), c), ..self }
    }
}

/// The state of a connection before any message.
pub open spec fn initial() -> ServerView {
    ServerView {
        my_nick: None,
        channels: Map::empty(),
        prefixes: default_prefixes(),
        registered: false,
    }
}

/// Nick, user and host of a source. A source without `@` is all nick.
pub open spec fn source_parts(s: Seq<char>) -> (Seq<char>, Option<Seq<char>>, Option<Seq<char>>) {
    match text::split_once_at(s, '@') {
        Some((nick_user, host)) => match text::split_once_at(nick_user, '!') {
            Some((nick, user)) => (nick, Some(user), Some(host)),
            None => (nick_user, None, Some(host)),
        },
        None => (s, None, None),
    }
}

/// The nick of the message's source.
pub open spec fn nick_of(m: MessageView) -> Seq<char> {
    source_parts(m.source_or_empty()).0
}

/// Lowercase an IRC name. Only ASCII letters are mapped.
#[must_use]
pub fn irc_lower(s: &str) -> (r: String)
    ensures
        r@ == text::lower(s@),
{
    text::to_lower(s)
}

/// Parse a source string into `(nick, user, host)`.
pub fn parse_source(source: &str) -> (r: (String, Option<String>, Option<String>))
    ensures
        source_parts(source@) == (r.0@, text::opt_view(r.1), text::opt_view(r.2)),
{
    match text::split_once(source, '@') {
        Some((nick_user, host)) => match text::split_once(nick_user, '!') {
            Some((nick, user)) => (
                text::owned(nick),
                Some(text::owned(user)),
                Some(text::owned(host)),
            ),
            None => (text::owned(nick_user), None, Some(text::owned(host))),
        },
        None => (text::owned(source), None, None),
    }
}

/// The nick of the message's source.
fn source_nick(msg: &Message<'_>) -> (r: String)
    ensures
        r@ == nick_of(msg@),
{
    parse_source(msg.source_or_empty()).0
}

// ----- what each message does ------------------------------------------------

/// A state and the events that led to it.
pub type Outcome = (ServerView, Seq<EventView>);

/// RPL_WELCOME: parameter 0 is our nickname as the server sees it.
pub open spec fn on_welcome(s: ServerView, m: MessageView) -> Outcome {
    (
        ServerView {
            my_nick: match m.param(0) {
                Some(nick) => Some(nick),
                None => s.my_nick,
            },
            registered: true,
            ..s
        },
        seq![EventView::Welcomed { nick: m.param_or_empty(0) }],
    )
}

/// The mapping in force after the ISUPPORT tokens `tokens`: the last `PREFIX=`
/// among them decides.
pub open spec fn supported_prefixes(
    tokens: Seq<Seq<char>>,
    current: Seq<(char, char)>,
) -> Seq<(char, char)>
    decreases tokens.len(),
{
    if tokens.len() == 0 {
        current
    } else if text::starts_with(tokens.last(), "PREFIX="@) {
        declared_prefixes(tokens.last().skip("PREFIX="@.len() as int))
    } else {
        supported_prefixes(tokens.drop_last(), current)
    }
}

/// RPL_ISUPPORT: every parameter after our nick is a token.
pub open spec fn on_isupport(s: ServerView, m: MessageView) -> Outcome {
    let tokens = if m.params.len() > 0 {
        m.params.skip(1)
    } else {
        Seq::empty()
    };
    (
        ServerView { prefixes: supported_prefixes(tokens, s.prefixes), ..s },
        Seq::empty(),
    )
}

/// RPL_TOPIC: `<client> <channel> :<topic>`.
pub open spec fn on_topic_reply(s: ServerView, m: MessageView) -> Outcome {
    let name = m.param_or_empty(1);
    let topic = m.param_or_empty(2);
    (
        s.with_channel(name, ChannelView { topic: Some(topic), ..s.channel_or_fresh(name) }),
        seq![EventView::TopicSet { channel: name, topic, set_by: None, set_at: None }],
    )
}

/// RPL_TOPICWHOTIME: `<client> <channel> <set by> <set at>`.
pub open spec fn on_topic_who_time(s: ServerView, m: MessageView) -> Outcome {
    let name = m.param_or_empty(1);
    let by = m.param(2);
    let at = match m.param(3) {
        Some(t) => text::signed_value(t),
        None => None,
    };
    let known = s.channels.contains_key(text::lower(name));
    let topic = match s.channel_or_fresh(name).topic {
        Some(t) => t,
        None => Seq::empty(),
    };
    (
        if known {
            s.with_channel(
                name,
                ChannelView { topic_set_by: by, topic_set_at: at, ..s.channel_or_fresh(name) },
            )
        } else {
            s
        },
        seq![EventView::TopicSet { channel: name, topic, set_by: by, set_at: at }],
    )
}

/// Number of prefix characters at the start of `entry`.
pub open spec fn prefix_count(entry: Seq<char>, prefixes: Seq<(char, char)>) -> int
    decreases entry.len(),
{
    if entry.len() > 0 && has_prefix(prefixes, entry[0]) {
        1 + prefix_count(entry.drop_first(), prefixes)
    } else {
        0
    }
}

/// The modes that the characters of `marks` stand for.
pub open spec fn modes_of_marks(marks: Seq<char>, prefixes: Seq<(char, char)>) -> Set<char>
    decreases marks.len(),
{
    if marks.len() == 0 {
        Set::empty()
    } else {
        let before = modes_of_marks(marks.drop_last(), prefixes);
        match mode_of_prefix(prefixes, marks.last()) {
            Some(m) => before.insert(m),
            None => before,
        }
    }
}

/// The members after the names `names` have been listed. A name is a nick
/// behind the prefixes of the modes it holds; prefixes without a nick are
/// passed over.
pub open spec fn with_names(
    members: Map<Seq<char>, MemberView>,
    names: Seq<Seq<char>>,
    prefixes: Seq<(char, char)>,
) -> Map<Seq<char>, MemberView>
    decreases names.len(),
{
    if names.len() == 0 {
        members
    } else {
        let before = with_names(members, names.drop_last(), prefixes);
        let k = prefix_count(names.last(), prefixes);
        let nick = names.last().skip(k);
        if nick.len() == 0 {
            before
        } else {
            before.insert(
                text::lower(nick),
                MemberView {
                    nick,
                    user: None,
                    host: None,
                    modes: modes_of_marks(names.last().take(k), prefixes),
                },
            )
        }
    }
}

/// RPL_NAMREPLY: `<client> <symbol> <channel> :<names>`.
pub open spec fn on_names(s: ServerView, m: MessageView) -> Outcome {
    let name = m.param_or_empty(2);
    match m.param(3) {
        None => (s, Seq::empty()),
        Some(names) => {
            let c = s.channel_or_fresh(name);
            (
                s.with_channel(
                    name,
                    ChannelView {
                        members: with_names(c.members, text::words(names), s.prefixes),
                        ..c
                    },
                ),
                Seq::empty(),
            )
        },
    }
}

/// What a numeric reply does. Numerics not listed here do nothing.
pub open spec fn on_numeric(s: ServerView, n: u16, m: MessageView) -> Outcome {
    if n == 1 {
        on_welcome(s, m)
    } else if n == 5 {
        on_isupport(s, m)
    } else if n == 332 {
        on_topic_reply(s, m)
    } else if n == 333 {
        on_topic_who_time(s, m)
    } else if n == 353 {
        on_names(s, m)
    } else {
        (s, Seq::empty())
    }
}

/// JOIN: the source becomes a member of the channel.
pub open spec fn on_join(s: ServerView, m: MessageView) -> Outcome {
    let name = m.param_or_empty(0);
    let (nick, user, host) = source_parts(m.source_or_empty());
    let member = MemberView { nick, user, host, modes: Set::empty() };
    let c = s.channel_or_fresh(name);
    (
        s.with_channel(
            name,
            ChannelView { members: c.members.insert(text::lower(nick), member), ..c },
        ),
        seq![EventView::Joined { channel: name, member, is_self: s.is_self(nick) }],
    )
}

/// The state after `nick` left the channel `name`: we drop the whole channel
/// when `nick` is us, and otherwise the member.
pub open spec fn without_member(s: ServerView, name: Seq<char>, nick: Seq<char>) -> ServerView {
    let key = text::lower(name);
    if s.is_self(nick) {
        ServerView { channels: s.channels.remove(key), ..s }
    } else if s.channels.contains_key(key) {
        let c = s.channels[key];
        s.with_channel(name, ChannelView { members: c.members.remove(text::lower(nick)), ..c })
    } else {
        s
    }
}

/// PART: the source leaves the channel.
pub open spec fn on_part(s: ServerView, m: MessageView) -> Outcome {
    let name = m.param_or_empty(0);
    let nick = nick_of(m);
    (
        without_member(s, name, nick),
        seq![
            EventView::Parted {
                channel: name,
                nick,
                reason: m.param(1),
                is_self: s.is_self(nick),
            },
        ],
    )
}

/// KICK: the target leaves the channel.
pub open spec fn on_kick(s: ServerView, m: MessageView) -> Outcome {
    let name = m.param_or_empty(0);
    let target = m.param_or_empty(1);
    (
        without_member(s, name, target),
        seq![
            EventView::Kicked {
                channel: name,
                target,
                by: nick_of(m),
                reason: m.param(2),
                is_self_target: s.is_self(target),
            },
        ],
    )
}

/// A channel without the member `nick`.
pub open spec fn channel_without(c: ChannelView, nick: Seq<char>) -> ChannelView {
    ChannelView { members: c.members.remove(text::lower(nick)), ..c }
}

/// QUIT: the source leaves every channel.
pub open spec fn on_quit(s: ServerView, m: MessageView) -> Outcome {
    let nick = nick_of(m);
    (
        ServerView {
            channels: s.channels.map_values(|c: ChannelView| channel_without(c, nick)),
            ..s
        },
        seq![EventView::Quit { nick, reason: m.param(0) }],
    )
}

/// A channel in which the member `old_nick`, if present, is called `new_nick`.
pub open spec fn channel_renamed(
    c: ChannelView,
    old_nick: Seq<char>,
    new_nick: Seq<char>,
) -> ChannelView {
    let key = text::lower(old_nick);
    if c.members.contains_key(key) {
        ChannelView {
            members: c.members.remove(key).insert(
                text::lower(new_nick),
                MemberView { nick: new_nick, ..c.members[key] },
            ),
            ..c
        }
    } else {
        c
    }
}

/// NICK: the source is renamed in every channel, and so are we if it is us.
pub open spec fn on_nick(s: ServerView, m: MessageView) -> Outcome {
    let old_nick = nick_of(m);
    let new_nick = m.param_or_empty(0);
    let is_self = s.is_self(old_nick);
    (
        ServerView {
            my_nick: if is_self {
                Some(new_nick)
            } else {
                s.my_nick
            },
            channels: s.channels.map_values(
                |c: ChannelView| channel_renamed(c, old_nick, new_nick),
            ),
            ..s
        },
        seq![EventView::NickChanged { old_nick, new_nick, is_self }],
    )
}

/// The members after `nick` got (or lost) the mode `mode`; nothing happens to
/// a nick that is not a member.
pub open spec fn with_mode(
    members: Map<Seq<char>, MemberView>,
    nick: Seq<char>,
    mode: char,
    adding: bool,
) -> Map<Seq<char>, MemberView> {
    let key = text::lower(nick);
    if members.contains_key(key) {
        let m = members[key];
        members.insert(
            key,
            MemberView {
                modes: if adding {
                    m.modes.insert(mode)
                } else {
                    m.modes.remove(mode)
                },
                ..m
            },
        )
    } else {
        members
    }
}

/// Modes other than prefix modes that use up an argument.
pub open spec fn takes_argument(mode: char) -> bool {
    mode == 'b' || mode == 'e' || mode == 'I' || mode == 'k' || mode == 'l'
}

/// The members after the mode letters `modes`, read from left to right. `+` and
/// `-` switch the direction, a prefix mode applies to the nick in the next
/// argument (and is passed over when there is none), and the modes of
/// [`takes_argument`] use up an argument.
pub open spec fn with_modes(
    members: Map<Seq<char>, MemberView>,
    modes: Seq<char>,
    args: Seq<Seq<char>>,
    adding: bool,
    prefixes: Seq<(char, char)>,
) -> Map<Seq<char>, MemberView>
    decreases modes.len(),
{
    if modes.len() == 0 {
        members
    } else {
        let c = modes[0];
        let rest = modes.drop_first();
        if c == '+' {
            with_modes(members, rest, args, true, prefixes)
        } else if c == '-' {
            with_modes(members, rest, args, false, prefixes)
        } else if has_mode(prefixes, c) {
            if args.len() == 0 {
                with_modes(members, rest, args, adding, prefixes)
            } else {
                with_modes(
                    with_mode(members, args[0], c, adding),
                    rest,
                    args.drop_first(),
                    adding,
                    prefixes,
                )
            }
        } else if takes_argument(c) && args.len() > 0 {
            with_modes(members, rest, args.drop_first(), adding, prefixes)
        } else {
            with_modes(members, rest, args, adding, prefixes)
        }
    }
}

/// Whether a name is that of a channel.
pub open spec fn is_channel_name(s: Seq<char>) -> bool {
    s.len() > 0 && (s[0] == '#' || s[0] == '&')
}

/// Whether a name is that of a channel.
pub fn names_channel(s: &str) -> (b: bool)
    ensures
        b == is_channel_name(s@),
{
    if text::is_empty(s) {
        return false;
    }
    let c = s.get_char(0);
    c == '#' || c == '&'
}

/// The arguments of a MODE message: what follows target and mode letters.
pub open spec fn mode_args(m: MessageView) -> Seq<Seq<char>> {
    if m.params.len() > 2 {
        m.params.skip(2)
    } else {
        Seq::empty()
    }
}

/// MODE: prefix modes change the members of a channel we know.
pub open spec fn on_mode(s: ServerView, m: MessageView) -> Outcome {
    let target = m.param_or_empty(0);
    let modes = m.param_or_empty(1);
    let args = mode_args(m);
    (
        if is_channel_name(target) && s.channels.contains_key(text::lower(target)) {
            let c = s.channels[text::lower(target)];
            s.with_channel(
                target,
                ChannelView {
                    members: with_modes(c.members, modes, args, true, s.prefixes),
                    ..c
                },
            )
        } else {
            s
        },
        seq![EventView::ModeChanged { target, by: nick_of(m), modes, args }],
    )
}

/// TOPIC: the topic of a channel we know changes.
pub open spec fn on_topic(s: ServerView, m: MessageView) -> Outcome {
    let name = m.param_or_empty(0);
    let topic = m.param_or_empty(1);
    let by = nick_of(m);
    (
        if s.channels.contains_key(text::lower(name)) {
            s.with_channel(
                name,
                ChannelView {
                    topic: Some(topic),
                    topic_set_by: Some(by),
                    ..s.channel_or_fresh(name)
                },
            )
        } else {
            s
        },
        seq![EventView::TopicSet { channel: name, topic, set_by: Some(by), set_at: None }],
    )
}

/// PING: an event, if there is a token.
pub open spec fn on_ping(s: ServerView, m: MessageView) -> Outcome {
    (
        s,
        match m.param(0) {
            Some(token) => seq![EventView::Ping { token }],
            None => Seq::empty(),
        },
    )
}

/// What one message does to the state, and the events it yields. Messages not
/// listed here do nothing.
pub open spec fn step(s: ServerView, m: MessageView) -> Outcome {
    match m.command {
        CommandView::Numeric(n) => on_numeric(s, n, m),
        CommandView::Word(_) => if m.is_command("PING"@) {
            on_ping(s, m)
        } else if m.is_command("JOIN"@) {
            on_join(s, m)
        } else if m.is_command("PART"@) {
            on_part(s, m)
        } else if m.is_command("QUIT"@) {
            on_quit(s, m)
        } else if m.is_command("KICK"@) {
            on_kick(s, m)
        } else if m.is_command("NICK"@) {
            on_nick(s, m)
        } else if m.is_command("MODE"@) {
            on_mode(s, m)
        } else if m.is_command("TOPIC"@) {
            on_topic(s, m)
        } else if m.is_command("PRIVMSG"@) {
            (
                s,
                seq![
                    EventView::Privmsg {
                        from: m.source,
                        target: m.param_or_empty(0),
                        body: m.param_or_empty(1),
                    },
                ],
            )
        } else if m.is_command("NOTICE"@) {
            (
                s,
                seq![
                    EventView::Notice {
                        from: m.source,
                        target: m.param_or_empty(0),
                        body: m.param_or_empty(1),
                    },
                ],
            )
        } else {
            (s, Seq::empty())
        },
    }
}

impl Default for ServerState {
    /// The state of a connection before any message.
    fn default() -> (s: Self)
        ensures
            s@ == initial(),
    {
        ServerState::new()
    }
}

impl Clone for ServerState {
    fn clone(&self) -> (r: Self)
        ensures
            r@ == self@,
    {
        ServerState {
            my_nick: text::opt_clone(&self.my_nick),
            channels: self.channels.clone(),
            prefix_map: self.prefix_map.clone(),
            registered: self.registered,
        }
    }
}

impl ServerState {
    /// The state of a connection before any message.
    #[must_use]
    pub fn new() -> (s: Self)
        ensures
            s@ == initial(),
    {
        ServerState {
            my_nick: None,
            channels: TextMap::new(),
            prefix_map: PrefixMap::default(),
            registered: false,
        }
    }

    /// The channel called `name`, up to case.
    #[must_use]
    pub fn channel(&self, name: &str) -> (r: Option<&ChannelState>)
        ensures
            r is Some == self@.channels.contains_key(text::lower(name@)),
            r matches Some(c) ==> c@ == self@.channels[text::lower(name@)],
    {
        self.channels.get(irc_lower(name).as_str())
    }

    /// Whether `nick` is us.
    #[must_use]
    pub fn is_self(&self, nick: &str) -> (b: bool)
        ensures
            b == self@.is_self(nick@),
    {
        match &self.my_nick {
            Some(me) => text::eq_ignore_case(me.as_str(), nick),
            None => false,
        }
    }

    /// Process one parsed message and return the resulting events.
    pub fn process(&mut self, msg: &Message<'_>) -> (events: Vec<StateEvent>)
        ensures
            (final(self)@, event_views(events@)) == step(old(self)@, msg@),
    {
        if let Command::Numeric(n) = msg.command {
            return self.process_numeric(n, msg);
        }
        if msg.is_command("PING") {
            return match msg.param(0) {
                Some(token) => one(StateEvent::Ping { token: text::owned(token) }),
                None => none(),
            };
        }
        if msg.is_command("JOIN") {
            return self.process_join(msg);
        }
        if msg.is_command("PART") {
            return self.process_part(msg);
        }
        if msg.is_command("QUIT") {
            return self.process_quit(msg);
        }
        if msg.is_command("KICK") {
            return self.process_kick(msg);
        }
        if msg.is_command("NICK") {
            return self.process_nick(msg);
        }
        if msg.is_command("MODE") {
            return self.process_mode(msg);
        }
        if msg.is_command("TOPIC") {
            return self.process_topic(msg);
        }
        if msg.is_command("PRIVMSG") {
            let (from, target, body) = passthrough(msg);
            return one(StateEvent::Privmsg { from, target, body });
        }
        if msg.is_command("NOTICE") {
            let (from, target, body) = passthrough(msg);
            return one(StateEvent::Notice { from, target, body });
        }
        none()
    }

    fn process_numeric(&mut self, n: u16, msg: &Message<'_>) -> (events: Vec<StateEvent>)
        ensures
            (final(self)@, event_views(events@)) == on_numeric(old(self)@, n, msg@),
    {
        if n == 1 {
            if let Some(nick) = msg.param(0) {
                self.my_nick = Some(text::owned(nick));
            }
            self.registered = true;
            one(StateEvent::Welcomed { nick: text::owned(msg.param_or_empty(0)) })
        } else if n == 5 {
            self.process_isupport(msg);
            none()
        } else if n == 332 {
            let chan_name = msg.param_or_empty(1);
            let topic = msg.param_or_empty(2);
            let mut chan = self.take_channel(chan_name);
            chan.topic = Some(text::owned(topic));
            self.put_channel(chan_name, chan);
            one(
                StateEvent::TopicSet {
                    channel: text::owned(chan_name),
                    topic: text::owned(topic),
                    set_by: None,
                    set_at: None,
                },
            )
        } else if n == 333 {
            self.process_topic_who_time(msg)
        } else if n == 353 {
            self.process_names(msg);
            none()
        } else {
            none()
        }
    }

    /// RPL_ISUPPORT: the last `PREFIX=` token decides.
    fn process_isupport(&mut self, msg: &Message<'_>)
        ensures
            final(self)@ == on_isupport(old(self)@, msg@).0,
    {
        let ghost tokens = if msg@.params.len() > 0 {
            msg@.params.skip(1)
        } else {
            Seq::empty()
        };
        let ghost s = self@;
        let mut i: usize = 1;
        assert(tokens.take(0) =~= Seq::empty());
        while i < msg.params.len()
            invariant
                1 <= i,
                i <= msg.params.len() || (i == 1 && msg.params.len() == 0),
                msg@.params.len() > 0 ==> tokens == msg@.params.skip(1),
                msg@.params.len() == 0 ==> tokens == Seq::<Seq<char>>::empty(),
                msg@.params.len() > 0 ==> self@ == (ServerView {
                    prefixes: supported_prefixes(tokens.take(i - 1), s.prefixes),
                    ..s
                }),
                msg@.params.len() == 0 ==> self@ == s,
            decreases msg.params.len() - i,
        {
            proof {
                assert(tokens.take(i as int).drop_last() =~= tokens.take(i - 1));
                assert(tokens.take(i as int).last() == msg@.params[i as int]);
            }
            if let Some(value) = text::strip_prefix(msg.params[i], "PREFIX=") {
                self.prefix_map = PrefixMap::parse(value);
            }
            i = i + 1;
        }
        proof {
            if msg@.params.len() > 0 {
                assert(tokens.take(tokens.len() as int) =~= tokens);
            }
        }
    }

    /// Take the channel called `name` out of the state, or make a fresh one.
    fn take_channel(&mut self, name: &str) -> (c: ChannelState)
        ensures
            c@ == old(self)@.channel_or_fresh(name@),
            final(self)@ == (ServerView {
                channels: old(self)@.channels.remove(text::lower(name@)),
                ..old(self)@
            }),
    {
        match self.channels.remove(irc_lower(name).as_str()) {
            Some(c) => c,
            None => ChannelState::with_name(text::owned(name)),
        }
    }

    /// Put the channel called `name` into the state.
    fn put_channel(&mut self, name: &str, c: ChannelState)
        ensures
            final(self)@ == old(self)@.with_channel(name@, c@),
            forall|s: ServerView|
                #![trigger s.with_channel(name@, c@)]
                old(self)@ == (ServerView { channels: s.channels.remove(text::lower(name@)), ..s })
                    ==> final(self)@ == s.with_channel(name@, c@),
    {
        let ghost before = self@;
        self.channels.insert(irc_lower(name), c);
        proof {
            let key = text::lower(name@);
            assert forall|s: ServerView|
                #![trigger s.with_channel(name@, c@)]
                before == (ServerView {
                    channels: s.channels.remove(text::lower(name@)),
                    ..s
                }) implies self@ == s.with_channel(name@, c@) by {
                assert(s.channels.remove(key).insert(key, c@) =~= s.channels.insert(key, c@));
            }
        }
    }

    fn process_topic_who_time(&mut self, msg: &Message<'_>) -> (events: Vec<StateEvent>)
        ensures
            (final(self)@, event_views(events@)) == on_topic_who_time(old(self)@, msg@),
    {
        let chan_name = msg.param_or_empty(1);
        let by = text::opt_owned(msg.param(2));
        let at: Option<i64> = match msg.param(3) {
            Some(t) => text::parse_i64(t),
            None => None,
        };
        let mut topic = String::new();
        if self.channels.contains_key(irc_lower(chan_name).as_str()) {
            let mut chan = self.take_channel(chan_name);
            if let Some(t) = &chan.topic {
                topic = t.clone();
            }
            chan.topic_set_by = text::opt_clone(&by);
            chan.topic_set_at = at;
            self.put_channel(chan_name, chan);
        }
        one(
            StateEvent::TopicSet {
                channel: text::owned(chan_name),
                topic,
                set_by: by,
                set_at: at,
            },
        )
    }

    /// RPL_NAMREPLY: list the members of a channel.
    fn process_names(&mut self, msg: &Message<'_>)
        ensures
            final(self)@ == on_names(old(self)@, msg@).0,
    {
        let chan_name = msg.param_or_empty(2);
        let names_field = match msg.param(3) {
            Some(f) => f,
            None => {
                return;
            },
        };
        let mut chan = self.take_channel(chan_name);
        let entries = text::split_nonempty(names_field, ' ');
        let ghost names = text::words(names_field@);
        let ghost c = chan@;
        let mut i: usize = 0;
        assert(names.take(0) =~= Seq::empty());
        while i < entries.len()
            invariant
                i <= entries.len(),
                names == text::str_views(entries@),
                chan@ == (ChannelView {
                    members: with_names(c.members, names.take(i as int), self@.prefixes),
                    ..c
                }),
            decreases entries.len() - i,
        {
            proof {
                assert(names.take(i + 1).drop_last() =~= names.take(i as int));
                assert(names.take(i + 1).last() == entries@[i as int]@);
            }
            let (modes, nick) = split_marks(entries[i], &self.prefix_map);
            if !nick.as_str().is_empty() {
                let key = irc_lower(nick.as_str());
                let mut member = Member::new(nick, None, None);
                member.modes = modes;
                chan.members.insert(key, member);
            }
            i = i + 1;
        }
        assert(names.take(names.len() as int) =~= names);
        self.put_channel(chan_name, chan);
    }

    fn process_join(&mut self, msg: &Message<'_>) -> (events: Vec<StateEvent>)
        ensures
            (final(self)@, event_views(events@)) == on_join(old(self)@, msg@),
    {
        let chan_name = msg.param_or_empty(0);
        let (nick, user, host) = parse_source(msg.source_or_empty());
        let is_self = self.is_self(nick.as_str());
        let key = irc_lower(nick.as_str());
        let member = Member::new(nick, user, host);
        let mut chan = self.take_channel(chan_name);
        chan.members.insert(key, member.clone());
        self.put_channel(chan_name, chan);
        one(StateEvent::Joined { channel: text::owned(chan_name), member, is_self })
    }

    /// Take `nick` out of the channel `name`, or the whole channel if it is us.
    fn drop_member(&mut self, name: &str, nick: &str) -> (is_self: bool)
        ensures
            is_self == old(self)@.is_self(nick@),
            final(self)@ == without_member(old(self)@, name@, nick@),
    {
        let is_self = self.is_self(nick);
        if is_self {
            let _ = self.channels.remove(irc_lower(name).as_str());
        } else if self.channels.contains_key(irc_lower(name).as_str()) {
            let mut chan = self.take_channel(name);
            let _ = chan.members.remove(irc_lower(nick).as_str());
            self.put_channel(name, chan);
        }
        is_self
    }

    fn process_quit(&mut self, msg: &Message<'_>) -> (events: Vec<StateEvent>)
        ensures
            (final(self)@, event_views(events@)) == on_quit(old(self)@, msg@),
    {
        let nick = source_nick(msg);
        let reason = text::opt_owned(msg.param(0));
        let key = irc_lower(nick.as_str());
        let names = self.channels.keys();
        let ghost before = self@;
        let ghost all = before.channels;
        let ghost want = all.map_values(|c: ChannelView| channel_without(c, nick@));
        let mut i: usize = 0;
        while i < names.len()
            invariant
                i <= names.len(),
                key@ == text::lower(nick@),
                all == before.channels,
                want == all.map_values(|c: ChannelView| channel_without(c, nick@)),
                order::strictly_sorted(text::views(names@)),
                forall|k: Seq<char>| all.contains_key(k) <==> exists|j: int|
                    0 <= j < names@.len() && #[trigger] names@[j]@ == k,
                self@ == (ServerView { channels: self@.channels, ..before }),
                self@.channels.dom() == all.dom(),
                forall|j: int|
                    0 <= j < i ==> self@.channels[(#[trigger] names@[j])@] == want[names@[j]@],
                forall|j: int|
                    i <= j < names@.len() ==> self@.channels[(#[trigger] names@[j])@]
                        == all[names@[j]@],
            decreases names.len() - i,
        {
            let ghost now = self@.channels;
            let name = &names[i];
            assert(all.contains_key(names@[i as int]@));
            proof {
                assert forall|j: int| 0 <= j < names@.len() && j != i implies (
                #[trigger] names@[j])@ != name@ by {
                    let vs = text::views(names@);
                    assert(vs[j] == names@[j]@ && vs[i as int] == name@);
                    order::lex_irreflexive(name@);
                }
            }
            if let Some(mut chan) = self.channels.remove(name.as_str()) {
                let ghost c = chan@;
                let _ = chan.members.remove(key.as_str());
                assert(chan@ == channel_without(c, nick@));
                self.channels.insert(name.clone(), chan);
                assert(self@.channels.dom() =~= all.dom());
            }
            i = i + 1;
        }
        proof {
            assert forall|k: Seq<char>| all.contains_key(k) implies self@.channels[k]
                == want[k] by {
                let j = choose|j: int| 0 <= j < names@.len() && #[trigger] names@[j]@ == k;
                assert(self@.channels[names@[j]@] == want[names@[j]@]);
            }
            assert(self@.channels =~= want);
        }
        one(StateEvent::Quit { nick, reason })
    }

    fn process_nick(&mut self, msg: &Message<'_>) -> (events: Vec<StateEvent>)
        ensures
            (final(self)@, event_views(events@)) == on_nick(old(self)@, msg@),
    {
        let old_nick = source_nick(msg);
        let new_nick = text::owned(msg.param_or_empty(0));
        let is_self = self.is_self(old_nick.as_str());
        if is_self {
            self.my_nick = Some(new_nick.clone());
        }
        let names = self.channels.keys();
        let ghost before = self@;
        let ghost all = before.channels;
        let ghost want = all.map_values(
            |c: ChannelView| channel_renamed(c, old_nick@, new_nick@),
        );
        let mut i: usize = 0;
        while i < names.len()
            invariant
                i <= names.len(),
                all == before.channels,
                want == all.map_values(
                    |c: ChannelView| channel_renamed(c, old_nick@, new_nick@),
                ),
                order::strictly_sorted(text::views(names@)),
                forall|k: Seq<char>| all.contains_key(k) <==> exists|j: int|
                    0 <= j < names@.len() && #[trigger] names@[j]@ == k,
                self@ == (ServerView { channels: self@.channels, ..before }),
                self@.channels.dom() == all.dom(),
                forall|j: int|
                    0 <= j < i ==> self@.channels[(#[trigger] names@[j])@] == want[names@[j]@],
                forall|j: int|
                    i <= j < names@.len() ==> self@.channels[(#[trigger] names@[j])@]
                        == all[names@[j]@],
            decreases names.len() - i,
        {
            let name = &names[i];
            assert(all.contains_key(names@[i as int]@));
            proof {
                assert forall|j: int| 0 <= j < names@.len() && j != i implies (
                #[trigger] names@[j])@ != name@ by {
                    let vs = text::views(names@);
                    assert(vs[j] == names@[j]@ && vs[i as int] == name@);
                    order::lex_irreflexive(name@);
                }
            }
            if let Some(mut chan) = self.channels.remove(name.as_str()) {
                let ghost c = chan@;
                if let Some(mut member) = chan.members.remove(irc_lower(old_nick.as_str()).as_str()) {
                    member.nick = new_nick.clone();
                    chan.members.insert(irc_lower(new_nick.as_str()), member);
                } else {
                    assert(chan@.members =~= c.members);
                }
                assert(chan@ == channel_renamed(c, old_nick@, new_nick@));
                self.channels.insert(name.clone(), chan);
                assert(self@.channels.dom() =~= all.dom());
            }
            i = i + 1;
        }
        proof {
            assert forall|k: Seq<char>| all.contains_key(k) implies self@.channels[k]
                == want[k] by {
                let j = choose|j: int| 0 <= j < names@.len() && #[trigger] names@[j]@ == k;
                assert(self@.channels[names@[j]@] == want[names@[j]@]);
            }
            assert(self@.channels =~= want);
        }
        one(StateEvent::NickChanged { old_nick, new_nick, is_self })
    }

    fn process_mode(&mut self, msg: &Message<'_>) -> (events: Vec<StateEvent>)
        ensures
            (final(self)@, event_views(events@)) == on_mode(old(self)@, msg@),
    {
        let target = msg.param_or_empty(0);
        let modes_str = msg.param_or_empty(1);
        let by = source_nick(msg);
        if names_channel(target) && self.channels.contains_key(irc_lower(target).as_str()) {
            let mut chan = self.take_channel(target);
            let ghost c = chan@;
            apply_modes(&mut chan.members, modes_str, msg, &self.prefix_map);
            self.put_channel(target, chan);
        }
        let mut args: Vec<String> = Vec::new();
        let mut i: usize = 2;
        while i < msg.params.len()
            invariant
                2 <= i,
                i <= msg.params.len() || (i == 2 && msg.params.len() < 2),
                text::views(args@) == mode_args(msg@).take(i - 2),
            decreases msg.params.len() - i,
        {
            let ghost before = text::views(args@);
            args.push(text::owned(msg.params[i]));
            assert(text::views(args@) =~= before.push(msg@.params[i as int]));
            assert(mode_args(msg@)[i - 2] == msg@.params[i as int]);
            i = i + 1;
            assert(text::views(args@) =~= mode_args(msg@).take(i - 2));
        }
        assert(text::views(args@) =~= mode_args(msg@));
        one(
            StateEvent::ModeChanged {
                target: text::owned(target),
                by,
                modes: text::owned(modes_str),
                args,
            },
        )
    }

    fn process_part(&mut self, msg: &Message<'_>) -> (events: Vec<StateEvent>)
        ensures
            (final(self)@, event_views(events@)) == on_part(old(self)@, msg@),
    {
        let chan_name = msg.param_or_empty(0);
        let reason = text::opt_owned(msg.param(1));
        let nick = source_nick(msg);
        let is_self = self.drop_member(chan_name, nick.as_str());
        one(StateEvent::Parted { channel: text::owned(chan_name), nick, reason, is_self })
    }

    fn process_kick(&mut self, msg: &Message<'_>) -> (events: Vec<StateEvent>)
        ensures
            (final(self)@, event_views(events@)) == on_kick(old(self)@, msg@),
    {
        let chan_name = msg.param_or_empty(0);
        let target = text::owned(msg.param_or_empty(1));
        let reason = text::opt_owned(msg.param(2));
        let by = source_nick(msg);
        let is_self_target = self.drop_member(chan_name, target.as_str());
        one(
            StateEvent::Kicked {
                channel: text::owned(chan_name),
                target,
                by,
                reason,
                is_self_target,
            },
        )
    }

    fn process_topic(&mut self, msg: &Message<'_>) -> (events: Vec<StateEvent>)
        ensures
            (final(self)@, event_views(events@)) == on_topic(old(self)@, msg@),
    {
        let chan_name = msg.param_or_empty(0);
        let topic = text::owned(msg.param_or_empty(1));
        let by = source_nick(msg);
        if self.channels.contains_key(irc_lower(chan_name).as_str()) {
            let mut chan = self.take_channel(chan_name);
            chan.topic = Some(topic.clone());
            chan.topic_set_by = Some(by.clone());
            self.put_channel(chan_name, chan);
        }
        one(
            StateEvent::TopicSet {
                channel: text::owned(chan_name),
                topic,
                set_by: Some(by),
                set_at: None,
            },
        )
    }
}

/// Source, target and body of a message that is passed on as it came.
fn passthrough(msg: &Message<'_>) -> (r: (Option<String>, String, String))
    ensures
        text::opt_view(r.0) == msg@.source,
        r.1@ == msg@.param_or_empty(0),
        r.2@ == msg@.param_or_empty(1),
{
    (
        text::opt_owned(msg.source),
        text::owned(msg.param_or_empty(0)),
        text::owned(msg.param_or_empty(1)),
    )
}

/// Apply the mode letters `modes_str` to the members; the arguments are the
/// message's parameters from the third on.
fn apply_modes(
    members: &mut TextMap<Member>,
    modes_str: &str,
    msg: &Message<'_>,
    prefix_map: &PrefixMap,
)
    ensures
        final(members)@ == with_modes(
            old(members)@,
            modes_str@,
            mode_args(msg@),
            true,
            prefix_map@,
        ),
{
    let cs = text::chars_of(modes_str);
    let ghost args = mode_args(msg@);
    let ghost want = with_modes(members@, modes_str@, args, true, prefix_map@);
    let mut adding = true;
    let mut arg_idx: usize = 2;
    let mut i: usize = 0;
    assert(modes_str@.skip(0) =~= modes_str@);
    assert(args.skip(0) =~= args);
    while i < cs.len()
        invariant
            cs@ == modes_str@,
            i <= cs.len(),
            args == mode_args(msg@),
            2 <= arg_idx,
            arg_idx - 2 <= args.len(),
            want == with_modes(
                members@,
                modes_str@.skip(i as int),
                args.skip(arg_idx - 2),
                adding,
                prefix_map@,
            ),
        decreases cs.len() - i,
    {
        let c = cs[i];
        proof {
            let rest = modes_str@.skip(i as int);
            assert(rest[0] == c);
            assert(rest.drop_first() =~= modes_str@.skip(i + 1));
            if arg_idx - 2 < args.len() {
                assert(args.skip(arg_idx - 2).drop_first() =~= args.skip(arg_idx - 1));
                assert(args.skip(arg_idx - 2)[0] == msg@.params[arg_idx as int]);
            }
        }
        if c == '+' {
            adding = true;
        } else if c == '-' {
            adding = false;
        } else if prefix_map.is_prefix_mode(c) {
            if arg_idx < msg.params.len() {
                let nick = msg.params[arg_idx];
                arg_idx = arg_idx + 1;
                set_mode(members, nick, c, adding);
            }
        } else if c == 'b' || c == 'e' || c == 'I' || c == 'k' || c == 'l' {
            if arg_idx < msg.params.len() {
                arg_idx = arg_idx + 1;
            }
        }
        i = i + 1;
    }
}

/// Give `nick` the mode `mode`, or take it away.
fn set_mode(members: &mut TextMap<Member>, nick: &str, mode: char, adding: bool)
    ensures
        final(members)@ == with_mode(old(members)@, nick@, mode, adding),
{
    let key = irc_lower(nick);
    let ghost before = members@;
    if let Some(mut member) = members.remove(key.as_str()) {
        if adding {
            member.modes.insert(mode);
        } else {
            member.modes.remove(&mode);
        }
        let ghost m = member@;
        members.insert(key, member);
        assert(before.remove(key@).insert(key@, m) =~= before.insert(key@, m));
    } else {
        assert(members@ =~= before);
    }
}

/// Part a listed name into the modes of its prefixes and the nick.
fn split_marks(entry: &str, prefix_map: &PrefixMap) -> (r: (CharSet, String))
    ensures
        r.0@ == modes_of_marks(
            entry@.take(prefix_count(entry@, prefix_map@)),
            prefix_map@,
        ),
        r.1@ == entry@.skip(prefix_count(entry@, prefix_map@)),
{
    let cs = text::chars_of(entry);
    let mut modes = CharSet::new();
    let mut i: usize = 0;
    assert(entry@.skip(0) =~= entry@);
    assert(entry@.take(0) =~= Seq::empty());
    while i < cs.len() && prefix_map.is_prefix(cs[i])
        invariant
            cs@ == entry@,
            i <= cs.len(),
            prefix_count(entry@, prefix_map@) == i + prefix_count(
                entry@.skip(i as int),
                prefix_map@,
            ),
            modes@ == modes_of_marks(entry@.take(i as int), prefix_map@),
        decreases cs.len() - i,
    {
        proof {
            assert(entry@.skip(i as int).drop_first() =~= entry@.skip(i + 1));
            assert(entry@.take(i + 1).drop_last() =~= entry@.take(i as int));
            assert(entry@.take(i + 1).last() == cs@[i as int]);
        }
        if let Some(m) = prefix_map.mode_for_prefix(cs[i]) {
            modes.insert(m);
        }
        i = i + 1;
    }
    let nick = text::string_of(&cs, i, cs.len());
    assert(nick@ =~= entry@.skip(i as int));
    (modes, nick)
}

} // verus!
