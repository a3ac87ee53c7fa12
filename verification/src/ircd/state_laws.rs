//! What holds of the server state machine as a whole.

use crate::ircd::message::{CommandView, MessageView};
use crate::ircd::state;
use crate::ircd::state::{ChannelView, MemberView, ServerView};
use crate::text;
use vstd::prelude::*;

verus! {

/// Every member is filed under the lower case of its nick.
pub open spec fn members_keyed(members: Map<Seq<char>, MemberView>) -> bool {
    forall|k: Seq<char>| #[trigger]
        members.contains_key(k) ==> k == text::lower(members[k].nick)
}

/// Every channel is filed under the lower case of its name, and every member
/// under the lower case of its nick.
pub open spec fn keyed(s: ServerView) -> bool {
    forall|k: Seq<char>| #[trigger]
        s.channels.contains_key(k) ==> k == text::lower(s.channels[k].name) && members_keyed(
            s.channels[k].members,
        )
}

/// Nothing is filed under a wrong name at the start.
pub proof fn initial_is_keyed()
    ensures
        keyed(state::initial()),
{
}

proof fn lemma_names_keyed(
    members: Map<Seq<char>, MemberView>,
    names: Seq<Seq<char>>,
    prefixes: Seq<(char, char)>,
)
    requires
        members_keyed(members),
    ensures
        members_keyed(state::with_names(members, names, prefixes)),
    decreases names.len(),
{
    if names.len() > 0 {
        lemma_names_keyed(members, names.drop_last(), prefixes);
    }
}

proof fn lemma_modes_keyed(
    members: Map<Seq<char>, MemberView>,
    modes: Seq<char>,
    args: Seq<Seq<char>>,
    adding: bool,
    prefixes: Seq<(char, char)>,
)
    requires
        members_keyed(members),
    ensures
        members_keyed(state::with_modes(members, modes, args, adding, prefixes)),
    decreases modes.len(),
{
    if modes.len() > 0 {
        let c = modes[0];
        let rest = modes.drop_first();
        if c == '+' {
            lemma_modes_keyed(members, rest, args, true, prefixes);
        } else if c == '-' {
            lemma_modes_keyed(members, rest, args, false, prefixes);
        } else if state::has_mode(prefixes, c) && args.len() > 0 {
            lemma_modes_keyed(
                state::with_mode(members, args[0], c, adding),
                rest,
                args.drop_first(),
                adding,
                prefixes,
            );
        } else if state::takes_argument(c) && args.len() > 0 && !state::has_mode(prefixes, c) {
            lemma_modes_keyed(members, rest, args.drop_first(), adding, prefixes);
        } else {
            lemma_modes_keyed(members, rest, args, adding, prefixes);
        }
    }
}

proof fn lemma_channel_keyed(s: ServerView, name: Seq<char>, c: ChannelView)
    requires
        keyed(s),
        text::lower(c.name) == text::lower(name),
        members_keyed(c.members),
    ensures
        keyed(s.with_channel(name, c)),
{
}

proof fn lemma_fresh_keyed(s: ServerView, name: Seq<char>)
    requires
        keyed(s),
    ensures
        members_keyed(s.channel_or_fresh(name).members),
        text::lower(s.channel_or_fresh(name).name) == text::lower(name),
{
}

/// Whatever the server sends, channels stay filed under their names and
/// members under their nicks.
pub proof fn step_keeps_keys(s: ServerView, m: MessageView)
    requires
        keyed(s),
    ensures
        keyed(state::step(s, m).0),
{
    lemma_fresh_keyed(s, m.param_or_empty(0));
    lemma_fresh_keyed(s, m.param_or_empty(1));
    lemma_fresh_keyed(s, m.param_or_empty(2));
    let t = state::step(s, m).0;
    match m.command {
        CommandView::Numeric(n) => {
            if n == 353 && m.param(3) is Some {
                let name = m.param_or_empty(2);
                let c = s.channel_or_fresh(name);
                let names = text::words(m.params[3]);
                lemma_names_keyed(c.members, names, s.prefixes);
                lemma_channel_keyed(
                    s,
                    name,
                    ChannelView {
                        members: state::with_names(c.members, names, s.prefixes),
                        ..c
                    },
                );
            }
        },
        CommandView::Word(_) => {
            let target = m.param_or_empty(0);
            if s.channels.contains_key(text::lower(target)) {
                lemma_modes_keyed(
                    s.channels[text::lower(target)].members,
                    m.param_or_empty(1),
                    state::mode_args(m),
                    true,
                    s.prefixes,
                );
            }
            assert(keyed(state::on_mode(s, m).0));
            assert(keyed(state::on_join(s, m).0));
            assert(keyed(state::on_topic(s, m).0));
            assert(keyed(state::on_part(s, m).0));
            assert(keyed(state::on_kick(s, m).0));
            assert(keyed(state::on_quit(s, m).0));
            assert(keyed(state::on_nick(s, m).0));
        },
    }
}

/// After a QUIT the source is a member of no channel.
pub proof fn quit_leaves_every_channel(s: ServerView, m: MessageView, k: Seq<char>)
    requires
        state::on_quit(s, m).0.channels.contains_key(k),
    ensures
        s.channels.contains_key(k),
        !state::on_quit(s, m).0.channels[k].members.contains_key(text::lower(state::nick_of(m))),
{
}

/// After a JOIN the source is a member of the channel, holding no mode.
pub proof fn join_makes_a_member(s: ServerView, m: MessageView)
    ensures
        ({
            let t = state::on_join(s, m).0;
            let c = t.channel_or_fresh(m.param_or_empty(0));
            let k = text::lower(state::nick_of(m));
            &&& t.channels.contains_key(text::lower(m.param_or_empty(0)))
            &&& c.members.contains_key(k)
            &&& c.members[k].nick == state::nick_of(m)
            &&& c.members[k].modes == Set::<char>::empty()
        }),
{
}

/// When we leave a channel, by PART or by KICK, the channel is forgotten.
pub proof fn leaving_forgets_the_channel(s: ServerView, name: Seq<char>, nick: Seq<char>)
    requires
        s.is_self(nick),
    ensures
        !state::without_member(s, name, nick).channels.contains_key(text::lower(name)),
{
}

/// When someone else leaves a channel, only they are gone from it.
pub proof fn leaving_removes_only_the_member(s: ServerView, name: Seq<char>, nick: Seq<char>)
    requires
        !s.is_self(nick),
    ensures
        ({
            let t = state::without_member(s, name, nick);
            let key = text::lower(name);
            &&& t.channels.dom() == s.channels.dom()
            &&& forall|k: Seq<char>|
                k != key && s.channels.contains_key(k) ==> #[trigger] t.channels[k]
                    == s.channels[k]
            &&& s.channels.contains_key(key) ==> t.channels[key].members
                == s.channels[key].members.remove(text::lower(nick))
        }),
{
    let t = state::without_member(s, name, nick);
    assert(t.channels.dom() =~= s.channels.dom());
}

/// A nick change moves the membership in every channel: who was filed under the
/// old nick is filed under the new one, with the same user, host and modes.
pub proof fn nick_change_moves_membership(s: ServerView, m: MessageView, k: Seq<char>)
    requires
        s.channels.contains_key(k),
    ensures
        ({
            let c = s.channels[k];
            let d = state::on_nick(s, m).0.channels[k];
            let old_key = text::lower(state::nick_of(m));
            let new_key = text::lower(m.param_or_empty(0));
            &&& state::on_nick(s, m).0.channels.contains_key(k)
            &&& c.members.contains_key(old_key) ==> {
                &&& d.members.contains_key(new_key)
                &&& d.members[new_key] == (MemberView {
                    nick: m.param_or_empty(0),
                    ..c.members[old_key]
                })
                &&& old_key != new_key ==> !d.members.contains_key(old_key)
            }
            &&& !c.members.contains_key(old_key) ==> d == c
        }),
{
}

/// `+m` followed by `-m` leaves the member without the mode, and everything
/// else as it was.
pub proof fn add_then_remove_mode(
    members: Map<Seq<char>, MemberView>,
    nick: Seq<char>,
    mode: char,
)
    requires
        members.contains_key(text::lower(nick)),
    ensures
        ({
            let key = text::lower(nick);
            let after = state::with_mode(state::with_mode(members, nick, mode, true), nick, mode, false);
            after == members.insert(
                key,
                MemberView { modes: members[key].modes.remove(mode), ..members[key] },
            )
        }),
{
    let key = text::lower(nick);
    let m = members[key];
    assert(m.modes.insert(mode).remove(mode) =~= m.modes.remove(mode));
    let after = state::with_mode(state::with_mode(members, nick, mode, true), nick, mode, false);
    assert(after =~= members.insert(key, MemberView { modes: m.modes.remove(mode), ..m }));
}

/// A channel is found under any case of its name.
pub proof fn channel_lookup_ignores_case(s: ServerView, a: Seq<char>, b: Seq<char>)
    requires
        text::lower(a) == text::lower(b),
    ensures
        s.channels.contains_key(text::lower(a)) == s.channels.contains_key(text::lower(b)),
        s.channels.contains_key(text::lower(a)) ==> s.channel_or_fresh(a) == s.channel_or_fresh(b),
{
}

} // verus!
