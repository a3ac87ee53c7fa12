//! What each message of the server changes, and what it leaves alone.

use crate::ircd::message::{CommandView, MessageView};
use crate::ircd::state;
use crate::ircd::state::{ChannelView, EventView, MemberView, ServerView};
use crate::text;
use vstd::prelude::*;

verus! {

// ----- the words of the protocol ------------------------------------------------

proof fn lemma_lower_differs(a: Seq<char>, b: Seq<char>, i: int)
    requires
        a.len() != b.len() || (0 <= i < a.len() && text::lower_char(a[i]) != text::lower_char(b[i])),
    ensures
        text::lower(a) != text::lower(b),
{
    if a.len() == b.len() {
        assert(text::lower(a)[i] == text::lower_char(a[i]));
        assert(text::lower(b)[i] == text::lower_char(b[i]));
    } else {
        assert(text::lower(a).len() == a.len());
        assert(text::lower(b).len() == b.len());
    }
}

proof fn lemma_letters()
    ensures
        text::lower_char('J') == 'j',
        text::lower_char('K') == 'k',
        text::lower_char('M') == 'm',
        text::lower_char('N') == 'n',
        text::lower_char('P') == 'p',
        text::lower_char('Q') == 'q',
        text::lower_char('I') == 'i',
        text::lower_char('A') == 'a',
{
}

/// The words that the server state listens to are all different.
proof fn lemma_words()
    ensures
        text::lower("PING"@) != text::lower("JOIN"@),
        text::lower("PING"@) != text::lower("PART"@),
        text::lower("PING"@) != text::lower("QUIT"@),
        text::lower("PING"@) != text::lower("KICK"@),
        text::lower("PING"@) != text::lower("NICK"@),
        text::lower("PING"@) != text::lower("MODE"@),
        text::lower("PING"@) != text::lower("TOPIC"@),
        text::lower("PING"@) != text::lower("PRIVMSG"@),
        text::lower("PING"@) != text::lower("NOTICE"@),
        text::lower("JOIN"@) != text::lower("PART"@),
        text::lower("JOIN"@) != text::lower("QUIT"@),
        text::lower("JOIN"@) != text::lower("KICK"@),
        text::lower("JOIN"@) != text::lower("NICK"@),
        text::lower("JOIN"@) != text::lower("MODE"@),
        text::lower("JOIN"@) != text::lower("TOPIC"@),
        text::lower("JOIN"@) != text::lower("PRIVMSG"@),
        text::lower("JOIN"@) != text::lower("NOTICE"@),
        text::lower("PART"@) != text::lower("QUIT"@),
        text::lower("PART"@) != text::lower("KICK"@),
        text::lower("PART"@) != text::lower("NICK"@),
        text::lower("PART"@) != text::lower("MODE"@),
        text::lower("PART"@) != text::lower("TOPIC"@),
        text::lower("PART"@) != text::lower("PRIVMSG"@),
        text::lower("PART"@) != text::lower("NOTICE"@),
        text::lower("QUIT"@) != text::lower("KICK"@),
        text::lower("QUIT"@) != text::lower("NICK"@),
        text::lower("QUIT"@) != text::lower("MODE"@),
        text::lower("QUIT"@) != text::lower("TOPIC"@),
        text::lower("QUIT"@) != text::lower("PRIVMSG"@),
        text::lower("QUIT"@) != text::lower("NOTICE"@),
        text::lower("KICK"@) != text::lower("NICK"@),
        text::lower("KICK"@) != text::lower("MODE"@),
        text::lower("KICK"@) != text::lower("TOPIC"@),
        text::lower("KICK"@) != text::lower("PRIVMSG"@),
        text::lower("KICK"@) != text::lower("NOTICE"@),
        text::lower("NICK"@) != text::lower("MODE"@),
        text::lower("NICK"@) != text::lower("TOPIC"@),
        text::lower("NICK"@) != text::lower("PRIVMSG"@),
        text::lower("NICK"@) != text::lower("NOTICE"@),
        text::lower("MODE"@) != text::lower("TOPIC"@),
        text::lower("MODE"@) != text::lower("PRIVMSG"@),
        text::lower("MODE"@) != text::lower("NOTICE"@),
        text::lower("TOPIC"@) != text::lower("PRIVMSG"@),
        text::lower("TOPIC"@) != text::lower("NOTICE"@),
        text::lower("PRIVMSG"@) != text::lower("NOTICE"@),
{
    reveal_strlit("PING");
    reveal_strlit("JOIN");
    reveal_strlit("PART");
    reveal_strlit("QUIT");
    reveal_strlit("KICK");
    reveal_strlit("NICK");
    reveal_strlit("MODE");
    reveal_strlit("TOPIC");
    reveal_strlit("PRIVMSG");
    reveal_strlit("NOTICE");
    lemma_letters();
    lemma_lower_differs("PING"@, "JOIN"@, 0);
    lemma_lower_differs("PING"@, "PART"@, 1);
    lemma_lower_differs("PING"@, "QUIT"@, 0);
    lemma_lower_differs("PING"@, "KICK"@, 0);
    lemma_lower_differs("PING"@, "NICK"@, 0);
    lemma_lower_differs("PING"@, "MODE"@, 0);
    lemma_lower_differs("PING"@, "TOPIC"@, 0);
    lemma_lower_differs("PING"@, "PRIVMSG"@, 0);
    lemma_lower_differs("PING"@, "NOTICE"@, 0);
    lemma_lower_differs("JOIN"@, "PART"@, 0);
    lemma_lower_differs("JOIN"@, "QUIT"@, 0);
    lemma_lower_differs("JOIN"@, "KICK"@, 0);
    lemma_lower_differs("JOIN"@, "NICK"@, 0);
    lemma_lower_differs("JOIN"@, "MODE"@, 0);
    lemma_lower_differs("JOIN"@, "TOPIC"@, 0);
    lemma_lower_differs("JOIN"@, "PRIVMSG"@, 0);
    lemma_lower_differs("JOIN"@, "NOTICE"@, 0);
    lemma_lower_differs("PART"@, "QUIT"@, 0);
    lemma_lower_differs("PART"@, "KICK"@, 0);
    lemma_lower_differs("PART"@, "NICK"@, 0);
    lemma_lower_differs("PART"@, "MODE"@, 0);
    lemma_lower_differs("PART"@, "TOPIC"@, 0);
    lemma_lower_differs("PART"@, "PRIVMSG"@, 0);
    lemma_lower_differs("PART"@, "NOTICE"@, 0);
    lemma_lower_differs("QUIT"@, "KICK"@, 0);
    lemma_lower_differs("QUIT"@, "NICK"@, 0);
    lemma_lower_differs("QUIT"@, "MODE"@, 0);
    lemma_lower_differs("QUIT"@, "TOPIC"@, 0);
    lemma_lower_differs("QUIT"@, "PRIVMSG"@, 0);
    lemma_lower_differs("QUIT"@, "NOTICE"@, 0);
    lemma_lower_differs("KICK"@, "NICK"@, 0);
    lemma_lower_differs("KICK"@, "MODE"@, 0);
    lemma_lower_differs("KICK"@, "TOPIC"@, 0);
    lemma_lower_differs("KICK"@, "PRIVMSG"@, 0);
    lemma_lower_differs("KICK"@, "NOTICE"@, 0);
    lemma_lower_differs("NICK"@, "MODE"@, 0);
    lemma_lower_differs("NICK"@, "TOPIC"@, 0);
    lemma_lower_differs("NICK"@, "PRIVMSG"@, 0);
    lemma_lower_differs("NICK"@, "NOTICE"@, 0);
    lemma_lower_differs("MODE"@, "TOPIC"@, 0);
    lemma_lower_differs("MODE"@, "PRIVMSG"@, 0);
    lemma_lower_differs("MODE"@, "NOTICE"@, 0);
    lemma_lower_differs("TOPIC"@, "PRIVMSG"@, 0);
    lemma_lower_differs("TOPIC"@, "NOTICE"@, 0);
    lemma_lower_differs("PRIVMSG"@, "NOTICE"@, 0);
}

// ----- what a message is about --------------------------------------------------

/// The parameter at `i`; a missing one is empty.
pub open spec fn nth(m: MessageView, i: int) -> Seq<char> {
    if 0 <= i < m.params.len() {
        m.params[i]
    } else {
        Seq::empty()
    }
}

/// The parameter at `i`, if there is one.
pub open spec fn given(m: MessageView, i: int) -> Option<Seq<char>> {
    if 0 <= i < m.params.len() {
        Some(m.params[i])
    } else {
        None
    }
}

/// Whether two states agree on all but the channels.
pub open spec fn same_connection(s: ServerView, t: ServerView) -> bool {
    t.my_nick == s.my_nick && t.prefixes == s.prefixes && t.registered == s.registered
}

/// Whether two states agree on all but the channel filed under `key`.
pub open spec fn same_but_channel(s: ServerView, t: ServerView, key: Seq<char>) -> bool {
    &&& same_connection(s, t)
    &&& forall|k: Seq<char>|
        k != key ==> (#[trigger] t.channels.contains_key(k) == s.channels.contains_key(k) && (
        s.channels.contains_key(k) ==> t.channels[k] == s.channels[k]))
}

/// Whether two channels agree on all but who is in them.
pub open spec fn same_but_members(c: ChannelView, d: ChannelView) -> bool {
    &&& d.name == c.name
    &&& d.topic == c.topic
    &&& d.topic_set_by == c.topic_set_by
    &&& d.topic_set_at == c.topic_set_at
}

/// Whether two lists of members agree on all but the one filed under `key`.
pub open spec fn same_but_member(
    a: Map<Seq<char>, MemberView>,
    b: Map<Seq<char>, MemberView>,
    key: Seq<char>,
) -> bool {
    forall|k: Seq<char>|
        k != key ==> (#[trigger] b.contains_key(k) == a.contains_key(k) && (a.contains_key(k)
            ==> b[k] == a[k]))
}

// ----- messages to people -------------------------------------------------------

/// A PRIVMSG becomes one event with its source, target and body, and changes nothing.
pub proof fn privmsg_is_passed_on(s: ServerView, m: MessageView)
    requires
        m.is_command("PRIVMSG"@),
    ensures
        state::step(s, m).0 == s,
        state::step(s, m).1.len() == 1,
        state::step(s, m).1[0] == (EventView::Privmsg {
            from: m.source,
            target: nth(m, 0),
            body: nth(m, 1),
        }),
{
    lemma_words();
}

/// A NOTICE becomes one event with its source, target and body, and changes nothing.
pub proof fn notice_is_passed_on(s: ServerView, m: MessageView)
    requires
        m.is_command("NOTICE"@),
    ensures
        state::step(s, m).0 == s,
        state::step(s, m).1.len() == 1,
        state::step(s, m).1[0] == (EventView::Notice {
            from: m.source,
            target: nth(m, 0),
            body: nth(m, 1),
        }),
{
    lemma_words();
}

/// A PING becomes one event with its token, if it has one, and changes nothing.
pub proof fn ping_is_passed_on(s: ServerView, m: MessageView)
    requires
        m.is_command("PING"@),
    ensures
        state::step(s, m).0 == s,
        m.params.len() == 0 ==> state::step(s, m).1.len() == 0,
        m.params.len() > 0 ==> state::step(s, m).1.len() == 1 && state::step(s, m).1[0] == (
        EventView::Ping { token: m.params[0] }),
{
}

// ----- who is who ---------------------------------------------------------------

/// A source is a nick, or a nick with user and host, or a nick with a host.
pub proof fn source_is_taken_apart(nick: Seq<char>, user: Seq<char>, host: Seq<char>)
    requires
        !nick.contains('!'),
        !nick.contains('@'),
        !user.contains('@'),
    ensures
        state::source_parts(nick) == (nick, None::<Seq<char>>, None::<Seq<char>>),
        state::source_parts(nick.push('@') + host) == (nick, None::<Seq<char>>, Some(host)),
        state::source_parts(nick.push('!') + user.push('@') + host) == (
            nick,
            Some(user),
            Some(host),
        ),
{
    text::lemma_position(nick, '@');
    lemma_split_at(nick, host, '@');
    text::lemma_position(nick, '!');
    let front = nick.push('!') + user;
    let whole = nick.push('!') + user.push('@') + host;
    assert(whole =~= front.push('@') + host);
    assert(!front.contains('@')) by {
        assert forall|i: int| 0 <= i < front.len() implies front[i] != '@' by {
            if i < nick.len() {
                assert(nick.contains(nick[i]));
            } else if i > nick.len() {
                assert(user.contains(user[i - nick.len() - 1]));
            }
        }
    }
    lemma_split_at(front, host, '@');
    lemma_split_at(nick, user, '!');
}

/// What stands before and after the first `c`.
pub proof fn lemma_split_at(a: Seq<char>, b: Seq<char>, c: char)
    requires
        !a.contains(c),
    ensures
        text::split_once_at(a.push(c) + b, c) == Some((a, b)),
{
    let s = a.push(c) + b;
    text::lemma_position(s, c);
    let i = text::position(s, c);
    assert(s[a.len() as int] == c);
    assert(s.contains(c));
    if i < a.len() {
        assert(a.contains(a[i]));
    }
    assert(i == a.len());
    assert(s.take(i) =~= a);
    assert(s.skip(i + 1) =~= b);
}

/// We are who the server last called us, whatever the case of the letters; before a
/// name is known nobody is us.
pub proof fn self_is_our_nick(s: ServerView, nick: Seq<char>)
    ensures
        s.my_nick is None ==> !s.is_self(nick),
        s.my_nick matches Some(me) ==> s.is_self(nick) == (text::lower(me) == text::lower(nick)),
        s.my_nick == Some(nick) ==> s.is_self(nick),
{
}

// ----- coming and going ---------------------------------------------------------

/// A JOIN puts its source among the members of the channel, with its user and host and
/// without a mode. Nobody else, no topic and no other channel changes. One event tells
/// of it, and whether it was us.
pub proof fn join_adds_only_its_source(s: ServerView, m: MessageView)
    requires
        m.is_command("JOIN"@),
    ensures
        ({
            let (t, events) = state::step(s, m);
            let key = text::lower(nth(m, 0));
            let (nick, user, host) = state::source_parts(m.source_or_empty());
            let c = t.channels[key];
            &&& same_but_channel(s, t, key)
            &&& t.channels.contains_key(key)
            &&& c.members.contains_key(text::lower(nick))
            &&& c.members[text::lower(nick)] == (MemberView {
                nick,
                user,
                host,
                modes: Set::empty(),
            })
            &&& s.channels.contains_key(key) ==> same_but_members(s.channels[key], c)
                && same_but_member(s.channels[key].members, c.members, text::lower(nick))
            &&& !s.channels.contains_key(key) ==> {
                &&& c.name == nth(m, 0)
                &&& c.topic is None && c.topic_set_by is None && c.topic_set_at is None
                &&& forall|k: Seq<char>| #[trigger]
                    c.members.contains_key(k) ==> k == text::lower(nick)
            }
            &&& events == seq![
                EventView::Joined {
                    channel: nth(m, 0),
                    member: MemberView { nick, user, host, modes: Set::empty() },
                    is_self: s.is_self(nick),
                },
            ]
        }),
{
    lemma_words();
}

/// What is known after `nick` left the channel `name`: without us the channel is
/// forgotten; without someone else only they are gone.
pub open spec fn left(s: ServerView, t: ServerView, name: Seq<char>, nick: Seq<char>) -> bool {
    let key = text::lower(name);
    &&& same_but_channel(s, t, key)
    &&& s.is_self(nick) ==> !t.channels.contains_key(key)
    &&& !s.is_self(nick) ==> {
        &&& t.channels.contains_key(key) == s.channels.contains_key(key)
        &&& s.channels.contains_key(key) ==> {
            &&& same_but_members(s.channels[key], t.channels[key])
            &&& same_but_member(s.channels[key].members, t.channels[key].members, text::lower(nick))
            &&& !t.channels[key].members.contains_key(text::lower(nick))
        }
    }
}

/// A PART takes its source out of the channel, and tells so.
pub proof fn part_takes_its_source_out(s: ServerView, m: MessageView)
    requires
        m.is_command("PART"@),
    ensures
        ({
            let (t, events) = state::step(s, m);
            let nick = state::source_parts(m.source_or_empty()).0;
            &&& left(s, t, nth(m, 0), nick)
            &&& events == seq![
                EventView::Parted {
                    channel: nth(m, 0),
                    nick,
                    reason: given(m, 1),
                    is_self: s.is_self(nick),
                },
            ]
        }),
{
    lemma_words();
}

/// A KICK takes its target, not its source, out of the channel, and tells who did it.
pub proof fn kick_takes_its_target_out(s: ServerView, m: MessageView)
    requires
        m.is_command("KICK"@),
    ensures
        ({
            let (t, events) = state::step(s, m);
            &&& left(s, t, nth(m, 0), nth(m, 1))
            &&& events == seq![
                EventView::Kicked {
                    channel: nth(m, 0),
                    target: nth(m, 1),
                    by: state::source_parts(m.source_or_empty()).0,
                    reason: given(m, 2),
                    is_self_target: s.is_self(nth(m, 1)),
                },
            ]
        }),
{
    lemma_words();
}

/// A QUIT takes its source out of every channel and changes nothing else.
pub proof fn quit_takes_only_its_source_out(s: ServerView, m: MessageView, k: Seq<char>)
    requires
        m.is_command("QUIT"@),
    ensures
        ({
            let (t, events) = state::step(s, m);
            let nick = state::source_parts(m.source_or_empty()).0;
            &&& same_connection(s, t)
            &&& t.channels.contains_key(k) == s.channels.contains_key(k)
            &&& s.channels.contains_key(k) ==> {
                &&& same_but_members(s.channels[k], t.channels[k])
                &&& same_but_member(s.channels[k].members, t.channels[k].members, text::lower(nick))
                &&& !t.channels[k].members.contains_key(text::lower(nick))
            }
            &&& events == seq![EventView::Quit { nick, reason: given(m, 0) }]
        }),
{
    lemma_words();
}

/// A NICK moves its source to the new name in every channel where it is, with its user,
/// host and modes, and changes nobody else. If it was us, we have the new name.
pub proof fn nick_moves_only_its_source(s: ServerView, m: MessageView, k: Seq<char>)
    requires
        m.is_command("NICK"@),
    ensures
        ({
            let (t, events) = state::step(s, m);
            let old_nick = state::source_parts(m.source_or_empty()).0;
            let new_nick = nth(m, 0);
            let from = text::lower(old_nick);
            let to = text::lower(new_nick);
            &&& t.prefixes == s.prefixes && t.registered == s.registered
            &&& s.is_self(old_nick) ==> t.my_nick == Some(new_nick)
            &&& !s.is_self(old_nick) ==> t.my_nick == s.my_nick
            &&& t.channels.contains_key(k) == s.channels.contains_key(k)
            &&& s.channels.contains_key(k) ==> {
                let a = s.channels[k].members;
                let b = t.channels[k].members;
                &&& same_but_members(s.channels[k], t.channels[k])
                &&& !a.contains_key(from) ==> b == a
                &&& a.contains_key(from) ==> {
                    &&& b.contains_key(to)
                    &&& b[to].nick == new_nick
                    &&& b[to].user == a[from].user
                    &&& b[to].host == a[from].host
                    &&& b[to].modes == a[from].modes
                    &&& from != to ==> !b.contains_key(from)
                    &&& forall|j: Seq<char>|
                        j != from && j != to ==> (#[trigger] b.contains_key(j) == a.contains_key(j)
                            && (a.contains_key(j) ==> b[j] == a[j]))
                }
            }
            &&& events == seq![
                EventView::NickChanged { old_nick, new_nick, is_self: s.is_self(old_nick) },
            ]
        }),
{
    lemma_words();
}

// ----- topics -------------------------------------------------------------------

/// Whether two channels agree on all but the topic, who set it and when.
pub open spec fn same_but_topic(c: ChannelView, d: ChannelView) -> bool {
    d.name == c.name && d.members == c.members
}

/// A TOPIC sets the topic of a channel we know and who set it; an unknown channel stays
/// unknown. One event tells of it.
pub proof fn topic_is_set(s: ServerView, m: MessageView)
    requires
        m.is_command("TOPIC"@),
    ensures
        ({
            let (t, events) = state::step(s, m);
            let key = text::lower(nth(m, 0));
            let by = state::source_parts(m.source_or_empty()).0;
            &&& same_but_channel(s, t, key)
            &&& t.channels.contains_key(key) == s.channels.contains_key(key)
            &&& s.channels.contains_key(key) ==> {
                &&& same_but_topic(s.channels[key], t.channels[key])
                &&& t.channels[key].topic == Some(nth(m, 1))
                &&& t.channels[key].topic_set_by == Some(by)
                &&& t.channels[key].topic_set_at == s.channels[key].topic_set_at
            }
            &&& events == seq![
                EventView::TopicSet {
                    channel: nth(m, 0),
                    topic: nth(m, 1),
                    set_by: Some(by),
                    set_at: None,
                },
            ]
        }),
{
    lemma_words();
}

/// RPL_TOPIC gives the topic of a channel, which is known from then on.
pub proof fn topic_reply_gives_the_topic(s: ServerView, m: MessageView)
    requires
        m.command == CommandView::Numeric(332),
    ensures
        ({
            let (t, events) = state::step(s, m);
            let key = text::lower(nth(m, 1));
            &&& same_but_channel(s, t, key)
            &&& t.channels.contains_key(key)
            &&& t.channels[key].topic == Some(nth(m, 2))
            &&& s.channels.contains_key(key) ==> {
                &&& same_but_topic(s.channels[key], t.channels[key])
                &&& t.channels[key].topic_set_by == s.channels[key].topic_set_by
                &&& t.channels[key].topic_set_at == s.channels[key].topic_set_at
            }
            &&& !s.channels.contains_key(key) ==> t.channels[key].name == nth(m, 1)
                && t.channels[key].members == Map::<Seq<char>, MemberView>::empty()
            &&& events == seq![
                EventView::TopicSet {
                    channel: nth(m, 1),
                    topic: nth(m, 2),
                    set_by: None,
                    set_at: None,
                },
            ]
        }),
{
}

/// RPL_TOPICWHOTIME says who set the topic of a channel we know, and when; the topic
/// itself stays.
pub proof fn topic_who_time_says_who_and_when(s: ServerView, m: MessageView)
    requires
        m.command == CommandView::Numeric(333),
    ensures
        ({
            let (t, events) = state::step(s, m);
            let key = text::lower(nth(m, 1));
            let at = if m.params.len() > 3 {
                text::signed_value(m.params[3])
            } else {
                None
            };
            &&& same_but_channel(s, t, key)
            &&& t.channels.contains_key(key) == s.channels.contains_key(key)
            &&& s.channels.contains_key(key) ==> {
                &&& same_but_topic(s.channels[key], t.channels[key])
                &&& t.channels[key].topic == s.channels[key].topic
                &&& t.channels[key].topic_set_by == given(m, 2)
                &&& t.channels[key].topic_set_at == at
            }
            &&& events.len() == 1
            &&& events[0] matches EventView::TopicSet { channel, topic, set_by, set_at }
                && channel == nth(m, 1) && set_by == given(m, 2) && set_at == at && (
            s.channels.contains_key(key) && s.channels[key].topic is Some ==> Some(topic)
                == s.channels[key].topic)
        }),
{
}

// ----- registration -------------------------------------------------------------

/// RPL_WELCOME registers us under the name that the server gives, and tells so. What is
/// known of channels and modes stays.
pub proof fn welcome_names_us(s: ServerView, m: MessageView)
    requires
        m.command == CommandView::Numeric(1),
    ensures
        ({
            let (t, events) = state::step(s, m);
            &&& t.registered
            &&& t.channels == s.channels && t.prefixes == s.prefixes
            &&& m.params.len() > 0 ==> t.my_nick == Some(m.params[0])
            &&& m.params.len() == 0 ==> t.my_nick == s.my_nick
            &&& events == seq![EventView::Welcomed { nick: nth(m, 0) }]
        }),
{
}

/// RPL_ISUPPORT changes nothing but the prefixes. The last `PREFIX=` token behind our
/// nick decides; without one they stay.
pub proof fn isupport_declares_prefixes(s: ServerView, m: MessageView, i: int)
    requires
        m.command == CommandView::Numeric(5),
    ensures
        ({
            let (t, events) = state::step(s, m);
            &&& t.my_nick == s.my_nick && t.channels == s.channels && t.registered == s.registered
            &&& events.len() == 0
            &&& (forall|j: int|
                1 <= j < m.params.len() ==> !text::starts_with(#[trigger] m.params[j], "PREFIX="@))
                ==> t.prefixes == s.prefixes
            &&& 1 <= i < m.params.len() && text::starts_with(m.params[i], "PREFIX="@) && (forall|
                j: int,
            |
                i < j < m.params.len() ==> !text::starts_with(#[trigger] m.params[j], "PREFIX="@))
                ==> t.prefixes == state::declared_prefixes(m.params[i].skip(7))
        }),
{
    reveal_strlit("PREFIX=");
    if m.params.len() > 0 {
        let tokens = m.params.skip(1);
        lemma_last_prefix_decides(tokens, s.prefixes, i - 1);
        assert(forall|j: int| 0 <= j < tokens.len() ==> #[trigger] tokens[j] == m.params[j + 1]);
        assert forall|j: int| 1 <= j < m.params.len() implies #[trigger] m.params[j] == tokens[j
            - 1] by {}
    }
}

proof fn lemma_last_prefix_decides(tokens: Seq<Seq<char>>, current: Seq<(char, char)>, i: int)
    ensures
        (forall|j: int|
            0 <= j < tokens.len() ==> !text::starts_with(#[trigger] tokens[j], "PREFIX="@))
            ==> state::supported_prefixes(tokens, current) == current,
        0 <= i < tokens.len() && text::starts_with(tokens[i], "PREFIX="@) && (forall|j: int|
            i < j < tokens.len() ==> !text::starts_with(#[trigger] tokens[j], "PREFIX="@))
            ==> state::supported_prefixes(tokens, current) == state::declared_prefixes(
            tokens[i].skip("PREFIX="@.len() as int),
        ),
    decreases tokens.len(),
{
    if tokens.len() > 0 {
        lemma_last_prefix_decides(tokens.drop_last(), current, i);
        assert(forall|j: int|
            0 <= j < tokens.len() - 1 ==> #[trigger] tokens.drop_last()[j] == tokens[j]);
    }
}

/// A token `(modes)marks` pairs each mode with the mark in the same place. Where their
/// numbers differ, the token says nothing, and `o` is `@` and `v` is `+`.
pub proof fn prefix_token_pairs_modes_and_marks(modes: Seq<char>, marks: Seq<char>, i: int)
    requires
        !modes.contains(')'),
    ensures
        ({
            let p = state::declared_prefixes(seq!['('] + modes.push(')') + marks);
            &&& modes.len() == marks.len() ==> p.len() == modes.len()
            &&& modes.len() == marks.len() && 0 <= i < modes.len() ==> p[i] == (modes[i], marks[i])
            &&& modes.len() != marks.len() ==> p == seq![('o', '@'), ('v', '+')]
        }),
{
    let token = seq!['('] + modes.push(')') + marks;
    assert(token.skip(1) =~= modes.push(')') + marks);
    lemma_split_at(modes, marks, ')');
}

/// A connection starts with `o` as `@` and `v` as `+`, no name, no channel, and not
/// registered.
pub proof fn connection_starts_empty()
    ensures
        state::initial().prefixes == seq![('o', '@'), ('v', '+')],
        state::initial().my_nick is None,
        state::initial().channels == Map::<Seq<char>, ChannelView>::empty(),
        !state::initial().registered,
{
}

// ----- names --------------------------------------------------------------------

/// A mark stands for the mode that it is paired with, as long as no earlier pair has
/// the same mark.
pub proof fn mark_stands_for_its_mode(pairs: Seq<(char, char)>, i: int)
    requires
        0 <= i < pairs.len(),
        forall|j: int| 0 <= j < i ==> (#[trigger] pairs[j]).1 != pairs[i].1,
    ensures
        state::mode_of_prefix(pairs, pairs[i].1) == Some(pairs[i].0),
    decreases pairs.len(),
{
    if i > 0 {
        let t = pairs.drop_first();
        assert(pairs[0].1 != pairs[i].1);
        assert forall|j: int| 0 <= j < i - 1 implies (#[trigger] t[j]).1 != t[i - 1].1 by {
            assert(t[j] == pairs[j + 1]);
        }
        mark_stands_for_its_mode(t, i - 1);
    }
}

/// RPL_NAMREPLY changes only who is in one channel, which is known from then on: each of
/// its words is listed in turn. Without a list of names it does nothing.
pub proof fn names_list_members(s: ServerView, m: MessageView)
    requires
        m.command == CommandView::Numeric(353),
    ensures
        ({
            let (t, events) = state::step(s, m);
            let key = text::lower(nth(m, 2));
            &&& events.len() == 0
            &&& m.params.len() <= 3 ==> t == s
            &&& m.params.len() > 3 ==> {
                &&& same_but_channel(s, t, key)
                &&& t.channels.contains_key(key)
                &&& s.channels.contains_key(key) ==> {
                    &&& same_but_members(s.channels[key], t.channels[key])
                    &&& t.channels[key].members == state::with_names(
                        s.channels[key].members,
                        text::words(m.params[3]),
                        s.prefixes,
                    )
                }
                &&& !s.channels.contains_key(key) ==> {
                    &&& t.channels[key].name == nth(m, 2)
                    &&& t.channels[key].topic is None
                    &&& t.channels[key].members == state::with_names(
                        Map::empty(),
                        text::words(m.params[3]),
                        s.prefixes,
                    )
                }
            }
        }),
{
}

/// One more name on a list, a nick behind marks, makes that nick a member with exactly
/// the modes that the marks stand for; the rest is as without it. Marks without a nick
/// add nothing.
pub proof fn one_more_name(
    members: Map<Seq<char>, MemberView>,
    names: Seq<Seq<char>>,
    marks: Seq<char>,
    nick: Seq<char>,
    prefixes: Seq<(char, char)>,
)
    requires
        forall|i: int| 0 <= i < marks.len() ==> state::has_prefix(prefixes, #[trigger] marks[i]),
        nick.len() > 0 ==> !state::has_prefix(prefixes, nick[0]),
    ensures
        ({
            let before = state::with_names(members, names, prefixes);
            let after = state::with_names(members, names.push(marks + nick), prefixes);
            let key = text::lower(nick);
            &&& nick.len() == 0 ==> after == before
            &&& nick.len() > 0 ==> {
                &&& same_but_member(before, after, key)
                &&& after.contains_key(key)
                &&& after[key].nick == nick
                &&& after[key].user is None && after[key].host is None
                &&& forall|c: char| #[trigger]
                    after[key].modes.contains(c) <==> exists|i: int|
                        0 <= i < marks.len() && state::mode_of_prefix(prefixes, #[trigger] marks[i])
                            == Some(c)
            }
        }),
{
    let entry = marks + nick;
    let all = names.push(entry);
    assert(all.drop_last() =~= names);
    lemma_mark_count(marks, nick, prefixes);
    assert(entry.skip(marks.len() as int) =~= nick);
    assert(entry.take(marks.len() as int) =~= marks);
    lemma_modes_of_marks(marks, prefixes);
}

proof fn lemma_mark_count(marks: Seq<char>, nick: Seq<char>, prefixes: Seq<(char, char)>)
    requires
        forall|i: int| 0 <= i < marks.len() ==> state::has_prefix(prefixes, #[trigger] marks[i]),
        nick.len() > 0 ==> !state::has_prefix(prefixes, nick[0]),
    ensures
        state::prefix_count(marks + nick, prefixes) == marks.len(),
    decreases marks.len(),
{
    let entry = marks + nick;
    if marks.len() > 0 {
        assert(entry[0] == marks[0]);
        let t = marks.drop_first();
        assert(entry.drop_first() =~= t + nick);
        assert forall|i: int| 0 <= i < t.len() implies state::has_prefix(prefixes, #[trigger] t[i]) by {
            assert(t[i] == marks[i + 1]);
        }
        lemma_mark_count(t, nick, prefixes);
    } else {
        assert(entry =~= nick);
    }
}

proof fn lemma_modes_of_marks(marks: Seq<char>, prefixes: Seq<(char, char)>)
    ensures
        forall|c: char| #[trigger]
            state::modes_of_marks(marks, prefixes).contains(c) <==> exists|i: int|
                0 <= i < marks.len() && state::mode_of_prefix(prefixes, #[trigger] marks[i]) == Some(
                    c,
                ),
    decreases marks.len(),
{
    if marks.len() > 0 {
        let t = marks.drop_last();
        lemma_modes_of_marks(t, prefixes);
        assert forall|c: char| #[trigger]
            state::modes_of_marks(marks, prefixes).contains(c) <==> exists|i: int|
                0 <= i < marks.len() && state::mode_of_prefix(prefixes, #[trigger] marks[i]) == Some(
                    c,
                ) by {
            if state::modes_of_marks(t, prefixes).contains(c) {
                let i = choose|i: int|
                    0 <= i < t.len() && state::mode_of_prefix(prefixes, #[trigger] t[i]) == Some(c);
                assert(marks[i] == t[i]);
                assert(state::mode_of_prefix(prefixes, marks[i]) == Some(c));
            }
            if state::mode_of_prefix(prefixes, marks.last()) == Some(c) {
                assert(state::mode_of_prefix(prefixes, marks[marks.len() - 1]) == Some(c));
            }
            if exists|i: int|
                0 <= i < marks.len() && state::mode_of_prefix(prefixes, #[trigger] marks[i]) == Some(
                    c,
                ) {
                let i = choose|i: int|
                    0 <= i < marks.len() && state::mode_of_prefix(prefixes, #[trigger] marks[i])
                        == Some(c);
                if i < marks.len() - 1 {
                    assert(t[i] == marks[i]);
                    assert(state::mode_of_prefix(prefixes, t[i]) == Some(c));
                }
            }
        }
    }
}

// ----- modes --------------------------------------------------------------------

/// A MODE for a channel we know changes only the modes of its members, read from the
/// letters and arguments behind the target, adding until a sign says otherwise. For
/// any other target nothing changes. One event tells of it either way.
pub proof fn mode_changes_members(s: ServerView, m: MessageView)
    requires
        m.is_command("MODE"@),
    ensures
        ({
            let (t, events) = state::step(s, m);
            let target = nth(m, 0);
            let key = text::lower(target);
            let args = if m.params.len() > 2 {
                m.params.skip(2)
            } else {
                Seq::empty()
            };
            let applies = target.len() > 0 && (target[0] == '#' || target[0] == '&')
                && s.channels.contains_key(key);
            &&& !applies ==> t == s
            &&& applies ==> {
                &&& same_but_channel(s, t, key)
                &&& t.channels.contains_key(key)
                &&& same_but_members(s.channels[key], t.channels[key])
                &&& t.channels[key].members == state::with_modes(
                    s.channels[key].members,
                    seq!['+'] + nth(m, 1),
                    args,
                    false,
                    s.prefixes,
                )
            }
            &&& events == seq![
                EventView::ModeChanged {
                    target,
                    by: state::source_parts(m.source_or_empty()).0,
                    modes: nth(m, 1),
                    args,
                },
            ]
        }),
{
    lemma_words();
    let all = seq!['+'] + nth(m, 1);
    assert(all.drop_first() =~= nth(m, 1));
}

/// Each letter goes in the direction of the nearest sign before it: behind a `+`, modes
/// are given, and behind a `-`, taken, whatever stood before.
pub proof fn nearest_sign_decides(
    members: Map<Seq<char>, MemberView>,
    before: Seq<char>,
    after: Seq<char>,
    args: Seq<Seq<char>>,
    adding: bool,
    prefixes: Seq<(char, char)>,
)
    ensures
        ({
            let first = state::with_modes(members, before, args, adding, prefixes);
            let rest = args.skip(used(before, args.len() as int, prefixes));
            &&& state::with_modes(members, before + seq!['+'] + after, args, adding, prefixes)
                == state::with_modes(first, after, rest, true, prefixes)
            &&& state::with_modes(members, before + seq!['-'] + after, args, adding, prefixes)
                == state::with_modes(first, after, rest, false, prefixes)
        }),
    decreases before.len(),
{
    let plus = before + seq!['+'] + after;
    let minus = before + seq!['-'] + after;
    if before.len() == 0 {
        assert(plus.drop_first() =~= after);
        assert(minus.drop_first() =~= after);
        assert(args.skip(0) =~= args);
    } else {
        let c = before[0];
        let b = before.drop_first();
        assert(plus.drop_first() =~= b + seq!['+'] + after);
        assert(minus.drop_first() =~= b + seq!['-'] + after);
        assert(plus[0] == c && minus[0] == c);
        let n = args.len() as int;
        lemma_used(b, n, prefixes);
        lemma_used(b, n - 1, prefixes);
        if c == '+' {
            nearest_sign_decides(members, b, after, args, true, prefixes);
        } else if c == '-' {
            nearest_sign_decides(members, b, after, args, false, prefixes);
        } else if n > 0 && (state::has_mode(prefixes, c) || state::takes_argument(c)) {
            let next = if state::has_mode(prefixes, c) {
                state::with_mode(members, args[0], c, adding)
            } else {
                members
            };
            nearest_sign_decides(next, b, after, args.drop_first(), adding, prefixes);
            let u = used(b, n - 1, prefixes);
            assert(args.drop_first().skip(u) =~= args.skip(1 + u));
        } else {
            nearest_sign_decides(members, b, after, args, adding, prefixes);
        }
    }
}

/// How many of `left` arguments the letters use up: one for each mode that belongs to a
/// member and each of `b`, `e`, `I`, `k` and `l`, as long as there are any.
pub open spec fn used(letters: Seq<char>, left: int, prefixes: Seq<(char, char)>) -> int
    decreases letters.len(),
{
    if letters.len() == 0 {
        0
    } else {
        let c = letters[0];
        let takes = c != '+' && c != '-' && left > 0 && (state::has_mode(prefixes, c) || c == 'b' || c
            == 'e' || c == 'I' || c == 'k' || c == 'l');
        if takes {
            1 + used(letters.drop_first(), left - 1, prefixes)
        } else {
            used(letters.drop_first(), left, prefixes)
        }
    }
}

proof fn lemma_used(letters: Seq<char>, left: int, prefixes: Seq<(char, char)>)
    ensures
        0 <= used(letters, left, prefixes),
        left >= 0 ==> used(letters, left, prefixes) <= left,
    decreases letters.len(),
{
    if letters.len() > 0 {
        lemma_used(letters.drop_first(), left, prefixes);
        lemma_used(letters.drop_first(), left - 1, prefixes);
    }
}

/// One letter: a mode that belongs to a member goes to, or from, the nick in the next
/// argument; `b`, `e`, `I`, `k` and `l` use up an argument and change nobody; any other
/// letter does neither.
pub proof fn one_letter(
    members: Map<Seq<char>, MemberView>,
    c: char,
    rest: Seq<char>,
    args: Seq<Seq<char>>,
    adding: bool,
    prefixes: Seq<(char, char)>,
)
    requires
        c != '+',
        c != '-',
    ensures
        ({
            let t = state::with_modes(members, seq![c] + rest, args, adding, prefixes);
            let listed = c == 'b' || c == 'e' || c == 'I' || c == 'k' || c == 'l';
            &&& state::has_mode(prefixes, c) && args.len() > 0 ==> t == state::with_modes(
                state::with_mode(members, args[0], c, adding),
                rest,
                args.skip(1),
                adding,
                prefixes,
            )
            &&& !state::has_mode(prefixes, c) && listed && args.len() > 0 ==> t
                == state::with_modes(members, rest, args.skip(1), adding, prefixes)
            &&& args.len() == 0 || (!state::has_mode(prefixes, c) && !listed) ==> t
                == state::with_modes(members, rest, args, adding, prefixes)
        }),
{
    let all = seq![c] + rest;
    assert(all.drop_first() =~= rest);
    if args.len() > 0 {
        assert(args.drop_first() =~= args.skip(1));
    }
}

/// No letters change nobody.
pub proof fn no_letters(
    members: Map<Seq<char>, MemberView>,
    args: Seq<Seq<char>>,
    adding: bool,
    prefixes: Seq<(char, char)>,
)
    ensures
        state::with_modes(members, Seq::empty(), args, adding, prefixes) == members,
{
}

/// A mode that is given is held, one that is taken is not. Nothing else of the member
/// changes, and nobody else; a nick that is not a member does not become one.
pub proof fn mode_is_given_or_taken(
    members: Map<Seq<char>, MemberView>,
    nick: Seq<char>,
    mode: char,
    adding: bool,
)
    ensures
        ({
            let t = state::with_mode(members, nick, mode, adding);
            let key = text::lower(nick);
            &&& same_but_member(members, t, key)
            &&& t.contains_key(key) == members.contains_key(key)
            &&& members.contains_key(key) ==> {
                &&& t[key].modes.contains(mode) == adding
                &&& forall|c: char|
                    c != mode ==> #[trigger] t[key].modes.contains(c)
                        == members[key].modes.contains(c)
                &&& t[key].nick == members[key].nick
                &&& t[key].user == members[key].user
                &&& t[key].host == members[key].host
            }
        }),
{
}

/// `-m+n x y` takes `m` from `x` and gives `n` to `y`, and `+m-n x y` the other way
/// round, whichever way letters went before.
pub proof fn two_signed_letters(
    members: Map<Seq<char>, MemberView>,
    m: char,
    n: char,
    x: Seq<char>,
    y: Seq<char>,
    adding: bool,
    prefixes: Seq<(char, char)>,
)
    requires
        state::has_mode(prefixes, m),
        state::has_mode(prefixes, n),
        m != '+' && m != '-' && n != '+' && n != '-',
    ensures
        state::with_modes(members, seq!['-', m, '+', n], seq![x, y], adding, prefixes)
            == state::with_mode(state::with_mode(members, x, m, false), y, n, true),
        state::with_modes(members, seq!['+', m, '-', n], seq![x, y], adding, prefixes)
            == state::with_mode(state::with_mode(members, x, m, true), y, n, false),
{
    lemma_one_each(members, '-', m, '+', n, x, y, adding, prefixes);
    lemma_one_each(members, '+', m, '-', n, x, y, adding, prefixes);
}

proof fn lemma_one_each(
    members: Map<Seq<char>, MemberView>,
    a: char,
    m: char,
    b: char,
    n: char,
    x: Seq<char>,
    y: Seq<char>,
    adding: bool,
    prefixes: Seq<(char, char)>,
)
    requires
        a == '+' || a == '-',
        b == '+' || b == '-',
        state::has_mode(prefixes, m),
        state::has_mode(prefixes, n),
        m != '+' && m != '-' && n != '+' && n != '-',
    ensures
        state::with_modes(members, seq![a, m, b, n], seq![x, y], adding, prefixes)
            == state::with_mode(state::with_mode(members, x, m, a == '+'), y, n, b == '+'),
{
    let s4 = seq![a, m, b, n];
    let s3 = seq![m, b, n];
    let s2 = seq![b, n];
    let s1 = seq![n];
    assert(s4.drop_first() =~= s3);
    assert(s3.drop_first() =~= s2);
    assert(s2.drop_first() =~= s1);
    assert(s1.drop_first() =~= Seq::<char>::empty());
    let args = seq![x, y];
    assert(args.drop_first() =~= seq![y]);
    assert(seq![y].drop_first() =~= Seq::<Seq<char>>::empty());
    reveal_with_fuel(state::with_modes, 6);
}

// ----- everything else ----------------------------------------------------------

/// A numeric that is not listed, or a word that is not, changes nothing and says
/// nothing.
pub proof fn other_messages_do_nothing(s: ServerView, m: MessageView)
    requires
        m.command matches CommandView::Numeric(n) ==> n != 1 && n != 5 && n != 332 && n != 333 && n
            != 353,
        !m.is_command("PING"@),
        !m.is_command("JOIN"@),
        !m.is_command("PART"@),
        !m.is_command("QUIT"@),
        !m.is_command("KICK"@),
        !m.is_command("NICK"@),
        !m.is_command("MODE"@),
        !m.is_command("TOPIC"@),
        !m.is_command("PRIVMSG"@),
        !m.is_command("NOTICE"@),
    ensures
        state::step(s, m).0 == s,
        state::step(s, m).1.len() == 0,
{
}

/// Commands are compared without regard to the case of letters; a numeric is no word.
pub proof fn commands_ignore_case(m: MessageView, a: Seq<char>, b: Seq<char>)
    requires
        text::lower(a) == text::lower(b),
    ensures
        m.is_command(a) == m.is_command(b),
        m.command == CommandView::Word(a) ==> m.is_command(b),
        m.command is Numeric ==> !m.is_command(a),
{
}

} // verus!
