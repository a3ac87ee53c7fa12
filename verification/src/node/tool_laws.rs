//! What the operator tools ask for, and what a node makes of its configuration.

use crate::ircd::sasl::SaslMechanism;
use crate::node::backup;
use crate::node::backup::{Destination, RestoreRefusal, RestoreStep};
use crate::node::calendar;
use crate::node::calendar::Moment;
use crate::node::config;
use crate::node::config::{LogFormat, NetworkConfig, SaslConfig};
use crate::node::daemon;
use crate::node::daemon::{SessionConfigError, SessionPlan};
use crate::node::shadectl;
use crate::node::shadectl::{
    ChannelsCommand, ChansetCommand, JsonView, MaskCommand, Request, UsersCommand,
};
use crate::node::url;
use crate::text;
use vstd::prelude::*;
use vstd::utf8;

verus! {

// ----- requests -----------------------------------------------------------------

/// The fields of a request's body; none without a body.
pub open spec fn fields(r: Request) -> Seq<(Seq<char>, JsonView)> {
    match r.body {
        Some(f) => shadectl::fields_view(f@),
        None => Seq::empty(),
    }
}

/// Whether a request has this method and path.
pub open spec fn is_to(r: Request, method: Seq<char>, path: Seq<char>) -> bool {
    r.method@ == method && r.path@ == path
}

/// One or none.
pub open spec fn one_if(b: bool) -> nat {
    if b {
        1
    } else {
        0
    }
}

proof fn lemma_and_text(f: Seq<(Seq<char>, JsonView)>, k: Seq<char>, v: Option<String>)
    ensures
        shadectl::and_text(f, k, v).len() == f.len() + one_if(v is Some),
        forall|x: (Seq<char>, JsonView)| #[trigger]
            f.contains(x) ==> shadectl::and_text(f, k, v).contains(x),
        v matches Some(s) ==> shadectl::and_text(f, k, v).contains((k, JsonView::Text(s@))),
{
    if let Some(s) = v {
        lemma_push(f, (k, JsonView::Text(s@)));
    }
}

proof fn lemma_or_null(f: Seq<(Seq<char>, JsonView)>, k: Seq<char>, v: Option<String>, clear: bool)
    ensures
        shadectl::and_text_or_null(f, k, v, clear).len() == f.len() + one_if(v is Some || clear),
        forall|x: (Seq<char>, JsonView)| #[trigger]
            f.contains(x) ==> shadectl::and_text_or_null(f, k, v, clear).contains(x),
        v matches Some(s) ==> shadectl::and_text_or_null(f, k, v, clear).contains(
            (k, JsonView::Text(s@)),
        ),
        v is None && clear ==> shadectl::and_text_or_null(f, k, v, clear).contains(
            (k, JsonView::Null),
        ),
{
    if let Some(s) = v {
        lemma_push(f, (k, JsonView::Text(s@)));
    } else {
        lemma_push(f, (k, JsonView::Null));
    }
}

proof fn lemma_push(f: Seq<(Seq<char>, JsonView)>, y: (Seq<char>, JsonView))
    ensures
        f.push(y).contains(y),
        forall|x: (Seq<char>, JsonView)| #[trigger] f.contains(x) ==> f.push(y).contains(x),
{
    assert(f.push(y)[f.len() as int] == y);
    assert forall|x: (Seq<char>, JsonView)| #[trigger] f.contains(x) implies f.push(y).contains(
        x,
    ) by {
        let i = choose|i: int| 0 <= i < f.len() && f[i] == x;
        assert(f.push(y)[i] == x);
    }
}

/// A command about users asks for what it says: a user is named in the path, and what is
/// written is in the body, each value under its own name. What is not given is not sent.
pub proof fn user_commands_ask_for_users(cmd: &UsersCommand, r: Request)
    requires
        call_ensures(shadectl::users, (cmd,), r),
    ensures
        *cmd matches UsersCommand::List ==> is_to(r, "GET"@, "/v1/users"@) && r.body is None,
        *cmd matches UsersCommand::Show { handle } ==> is_to(
            r,
            "GET"@,
            "/v1/users/"@ + url::segment(handle@),
        ) && r.body is None,
        *cmd matches UsersCommand::Delete { handle } ==> is_to(
            r,
            "DELETE"@,
            "/v1/users/"@ + url::segment(handle@),
        ) && r.body is None,
        *cmd matches UsersCommand::Chattr { handle, diff } ==> is_to(
            r,
            "PATCH"@,
            "/v1/users/"@ + url::segment(handle@),
        ) && fields(r).len() == 1 && fields(r)[0] == ("flags_diff"@, JsonView::Text(diff@)),
        *cmd matches UsersCommand::Upsert { handle, flags, bot, comment, hosts } ==> {
            &&& is_to(r, "POST"@, "/v1/users"@)
            &&& fields(r).contains(("handle"@, JsonView::Text(handle@)))
            &&& fields(r).contains(("is_bot"@, JsonView::Bool(bot)))
            &&& fields(r).contains(("hosts"@, JsonView::Texts(text::views(hosts@))))
            &&& flags matches Some(f) ==> fields(r).contains(
                ("global_flags"@, JsonView::Text(f@)),
            )
            &&& comment matches Some(c) ==> fields(r).contains(("comment"@, JsonView::Text(c@)))
            &&& fields(r).len() == 3 + one_if(flags is Some) + one_if(comment is Some)
        },
{
    if let UsersCommand::Upsert { handle, flags, bot, comment, hosts } = cmd {
        let base = seq![
            ("handle"@, JsonView::Text(handle@)),
            ("is_bot"@, JsonView::Bool(*bot)),
            ("hosts"@, JsonView::Texts(text::views(hosts@))),
        ];
        assert(base.contains(base[0]) && base.contains(base[1]) && base.contains(base[2]));
        lemma_and_text(base, "global_flags"@, *flags);
        lemma_and_text(
            shadectl::and_text(base, "global_flags"@, *flags),
            "comment"@,
            *comment,
        );
    }
}

/// A command about channels asks for what it says.
pub proof fn channel_commands_ask_for_channels(cmd: &ChannelsCommand, r: Request)
    requires
        call_ensures(shadectl::channels, (cmd,), r),
    ensures
        *cmd matches ChannelsCommand::List ==> is_to(r, "GET"@, "/v1/channels"@) && r.body is None,
        *cmd matches ChannelsCommand::Show { name } ==> is_to(
            r,
            "GET"@,
            "/v1/channels/"@ + url::segment(name@),
        ) && r.body is None,
        *cmd matches ChannelsCommand::Delete { name } ==> is_to(
            r,
            "DELETE"@,
            "/v1/channels/"@ + url::segment(name@),
        ) && r.body is None,
        *cmd matches ChannelsCommand::Upsert { name } ==> is_to(r, "POST"@, "/v1/channels"@)
            && fields(r).len() == 1 && fields(r)[0] == ("name"@, JsonView::Text(name@)),
{
}

/// A change of settings sends each value that is given under its own name, null for what
/// is to be cleared, and nothing else.
pub proof fn settings_commands_send_what_is_given(cmd: &ChansetCommand, r: Request)
    requires
        call_ensures(shadectl::chanset, (cmd,), r),
    ensures
        *cmd matches ChansetCommand::Get { name } ==> is_to(
            r,
            "GET"@,
            "/v1/channels/"@ + url::segment(name@) + "/settings"@,
        ) && r.body is None,
        *cmd matches ChansetCommand::Put {
            name,
            flags,
            mode_pls,
            mode_mns,
            limit,
            no_limit,
            key,
            no_key,
            topic,
            no_topic,
        } ==> {
            &&& is_to(r, "PUT"@, "/v1/channels/"@ + url::segment(name@) + "/settings"@)
            &&& flags matches Some(v) ==> fields(r).contains(("flags"@, JsonView::Text(v@)))
            &&& mode_pls matches Some(v) ==> fields(r).contains(("mode_pls"@, JsonView::Text(v@)))
            &&& mode_mns matches Some(v) ==> fields(r).contains(("mode_mns"@, JsonView::Text(v@)))
            &&& limit matches Some(l) ==> fields(r).contains(
                ("limit_prot"@, JsonView::Number(l as i64)),
            )
            &&& limit is None && no_limit ==> fields(r).contains(("limit_prot"@, JsonView::Null))
            &&& key matches Some(v) ==> fields(r).contains(("key_prot"@, JsonView::Text(v@)))
            &&& key is None && no_key ==> fields(r).contains(("key_prot"@, JsonView::Null))
            &&& topic matches Some(v) ==> fields(r).contains(("topic_saved"@, JsonView::Text(v@)))
            &&& topic is None && no_topic ==> fields(r).contains(("topic_saved"@, JsonView::Null))
            &&& fields(r).len() == one_if(flags is Some) + one_if(mode_pls is Some) + one_if(
                mode_mns is Some,
            ) + one_if(limit is Some || no_limit) + one_if(key is Some || no_key) + one_if(
                topic is Some || no_topic,
            )
        },
{
    if let ChansetCommand::Put {
        name,
        flags,
        mode_pls,
        mode_mns,
        limit,
        no_limit,
        key,
        no_key,
        topic,
        no_topic,
    } = cmd {
        let z = Seq::<(Seq<char>, JsonView)>::empty();
        let a = shadectl::and_text(z, "flags"@, *flags);
        let b = shadectl::and_text(a, "mode_pls"@, *mode_pls);
        let c = shadectl::and_text(b, "mode_mns"@, *mode_mns);
        let d = shadectl::and_limit(c, *limit, *no_limit);
        let e = shadectl::and_text_or_null(d, "key_prot"@, *key, *no_key);
        lemma_and_text(z, "flags"@, *flags);
        lemma_and_text(a, "mode_pls"@, *mode_pls);
        lemma_and_text(b, "mode_mns"@, *mode_mns);
        if let Some(l) = limit {
            lemma_push(c, ("limit_prot"@, JsonView::Number(*l as i64)));
        } else {
            lemma_push(c, ("limit_prot"@, JsonView::Null));
        }
        lemma_or_null(d, "key_prot"@, *key, *no_key);
        lemma_or_null(e, "topic_saved"@, *topic, *no_topic);
    }
}

/// A command about masks asks for what it says.
pub proof fn mask_commands_ask_for_masks(cmd: &MaskCommand, r: Request)
    requires
        call_ensures(shadectl::mask, (cmd,), r),
    ensures
        *cmd matches MaskCommand::List { channel, kind } ==> is_to(
            r,
            "GET"@,
            "/v1/channels/"@ + url::segment(channel@) + "/masks?kind="@ + url::segment(kind@),
        ) && r.body is None,
        *cmd matches MaskCommand::Remove { id } ==> is_to(
            r,
            "DELETE"@,
            "/v1/masks/"@ + url::segment(id@),
        ) && r.body is None,
        *cmd matches MaskCommand::Add { channel, mask, kind, reason, expires_at, sticky } ==> {
            &&& is_to(r, "POST"@, "/v1/channels/"@ + url::segment(channel@) + "/masks"@)
            &&& fields(r).contains(("kind"@, JsonView::Text(kind@)))
            &&& fields(r).contains(("mask"@, JsonView::Text(mask@)))
            &&& fields(r).contains(("sticky"@, JsonView::Bool(sticky)))
            &&& reason matches Some(v) ==> fields(r).contains(("reason"@, JsonView::Text(v@)))
            &&& expires_at matches Some(e) ==> fields(r).contains(
                ("expires_at"@, JsonView::Number(e)),
            )
            &&& fields(r).len() == 3 + one_if(reason is Some) + one_if(expires_at is Some)
        },
{
    if let MaskCommand::Add { channel, mask, kind, reason, expires_at, sticky } = cmd {
        let base = seq![
            ("kind"@, JsonView::Text(kind@)),
            ("mask"@, JsonView::Text(mask@)),
            ("sticky"@, JsonView::Bool(*sticky)),
        ];
        assert(base.contains(base[0]) && base.contains(base[1]) && base.contains(base[2]));
        lemma_and_text(base, "reason"@, *reason);
        let a = shadectl::and_text(base, "reason"@, *reason);
        if let Some(e) = expires_at {
            lemma_push(a, ("expires_at"@, JsonView::Number(*e)));
        }
    }
}

/// A change of a user's flags in a channel, a login and a look at the audit log ask for
/// what they say.
pub proof fn other_commands_ask_for_what_they_say(
    handle: &str,
    channel: &str,
    diff: &str,
    c: Request,
    password: &str,
    l: Request,
    limit: usize,
    actor: Option<&str>,
    a: Request,
)
    requires
        call_ensures(shadectl::chattr_channel, (handle, channel, diff), c),
        call_ensures(shadectl::login, (handle, password), l),
        call_ensures(shadectl::audit, (limit, actor), a),
    ensures
        is_to(
            c,
            "PUT"@,
            "/v1/channels/"@ + url::segment(channel@) + "/users/"@ + url::segment(handle@),
        ),
        fields(c).len() == 1 && fields(c)[0] == ("flags_diff"@, JsonView::Text(diff@)),
        is_to(l, "POST"@, "/v1/login"@),
        fields(l).len() == 2 && fields(l)[0] == ("handle"@, JsonView::Text(handle@)) && fields(l)[1]
            == ("password"@, JsonView::Text(password@)),
        actor is None ==> is_to(a, "GET"@, "/v1/audit?limit="@ + text::decimal(limit as nat)),
        actor matches Some(x) ==> is_to(
            a,
            "GET"@,
            "/v1/audit?limit="@ + text::decimal(limit as nat) + "&actor="@ + url::segment(x@),
        ),
        a.body is None,
{
}

/// The address that is given is used; otherwise it is that of the listener, at the
/// loopback address where it listens everywhere, over TLS where it has it.
pub proof fn api_is_reached_where_it_listens(
    base: Option<&str>,
    host: &str,
    everywhere: bool,
    port: u16,
    tls: bool,
    s: String,
)
    requires
        call_ensures(shadectl::base_url, (base, host, everywhere, port, tls), s),
    ensures
        base matches Some(b) ==> s@ == b@,
        base is None && tls && everywhere ==> s@ == "https"@ + "://"@ + "127.0.0.1"@ + ":"@
            + text::decimal(port as nat),
        base is None && tls && !everywhere ==> s@ == "https"@ + "://"@ + host@ + ":"@
            + text::decimal(port as nat),
        base is None && !tls && everywhere ==> s@ == "http"@ + "://"@ + "127.0.0.1"@ + ":"@
            + text::decimal(port as nat),
        base is None && !tls && !everywhere ==> s@ == "http"@ + "://"@ + host@ + ":"@
            + text::decimal(port as nat),
{
}

/// An operator goes by the name given, or by the login name, from the first variable that
/// has it.
pub proof fn operator_goes_by_a_name(
    actor: Option<&str>,
    user: Option<&str>,
    username: Option<&str>,
    s: String,
)
    requires
        call_ensures(shadectl::actor_name, (actor, user, username), s),
    ensures
        actor matches Some(a) ==> s@ == a@,
        actor is None && user is Some ==> s@ == "cli:"@ + user->0@,
        actor is None && user is None && username is Some ==> s@ == "cli:"@ + username->0@,
        actor is None && user is None && username is None ==> s@ == "cli:"@ + "unknown"@,
{
}

/// A client certificate is presented with its key or not at all.
pub proof fn certificate_and_key_come_together(
    cert: bool,
    key: bool,
    r: Result<bool, &'static str>,
)
    requires
        call_ensures(shadectl::client_auth, (cert, key), r),
    ensures
        r is Err <==> cert != key,
        r matches Ok(b) ==> b == (cert && key),
        cert && !key ==> (r matches Err(m) && m@ == "--cert requires --key"@),
        !cert && key ==> (r matches Err(m) && m@ == "--key requires --cert"@),
{
}

// ----- path segments ------------------------------------------------------------

/// A byte of a path segment: letters, digits, `-`, `_`, `.` and `~` stand for themselves;
/// any other is `%` and its two hexadecimal digits, in capitals.
pub proof fn bytes_of_a_segment(s: Seq<u8>, b: u8)
    ensures
        ({
            let plain = 'A' as int <= b <= 'Z' as int || 'a' as int <= b <= 'z' as int || '0' as int
                <= b <= '9' as int || b == '-' as int || b == '_' as int || b == '.' as int || b
                == '~' as int;
            let e = url::encoded_byte(b);
            &&& url::encoded(s.push(b)) == url::encoded(s) + e
            &&& url::encoded(Seq::empty()).len() == 0
            &&& plain ==> e.len() == 1 && e[0] as int == b
            &&& !plain ==> e.len() == 3 && e[0] == '%' && url::hex_value(e[1]) * 16
                + url::hex_value(e[2]) == b && url::hex_value(e[1]) < 16 && url::hex_value(e[2]) < 16
            &&& !plain ==> ('0' <= e[1] <= '9' || 'A' <= e[1] <= 'F') && ('0' <= e[2] <= '9' || 'A'
                <= e[2] <= 'F')
        }),
{
    assert(s.push(b).drop_last() =~= s);
}

/// A text is encoded byte by byte of its UTF-8 form.
pub proof fn text_is_encoded_as_utf8(s: &str, r: String)
    requires
        call_ensures(url::percent_encode, (s,), r),
    ensures
        r@ == url::encoded(utf8::encode_utf8(s@)),
{
}

// ----- dates --------------------------------------------------------------------

/// The calendar: a day follows another, the last day of a month is followed by the first
/// of the next, and the last of a year by the first of the next. Day zero is the first of
/// January 1970.
pub proof fn days_follow_one_another(y: int, m: int, d: int)
    requires
        calendar::is_date(y, m, d),
    ensures
        calendar::day_number(1970, 1, 1) == 0,
        d < calendar::days_in_month(y, m) ==> calendar::day_number(y, m, d + 1)
            == calendar::day_number(y, m, d) + 1,
        d == calendar::days_in_month(y, m) && m < 12 ==> calendar::day_number(y, m + 1, 1)
            == calendar::day_number(y, m, d) + 1,
        d == 31 && m == 12 ==> calendar::day_number(y + 1, 1, 1) == calendar::day_number(y, m, d)
            + 1,
{
    reveal_with_fuel(calendar::days_before_month, 13);
    reveal_with_fuel(calendar::days_before_year, 2);
}

/// Months have 31 days, but for April, June, September and November with 30, and February
/// with 28, or 29 in a leap year: every fourth, but of the centuries only every fourth.
pub proof fn months_have_their_days(y: int, m: int)
    requires
        1 <= m <= 12,
    ensures
        calendar::days_in_month(y, m) == 31 <==> m == 1 || m == 3 || m == 5 || m == 7 || m == 8 || m
            == 10 || m == 12,
        calendar::days_in_month(y, m) == 30 <==> m == 4 || m == 6 || m == 9 || m == 11,
        m == 2 ==> calendar::days_in_month(y, m) == (if calendar::leap(y) {
            29int
        } else {
            28
        }),
        y % 4 != 0 ==> !calendar::leap(y),
        y % 4 == 0 && y % 100 != 0 ==> calendar::leap(y),
        y % 100 == 0 && y % 400 != 0 ==> !calendar::leap(y),
        y % 400 == 0 ==> calendar::leap(y),
{
}

/// A moment is its date and its time of day.
pub proof fn moments_are_date_and_time(secs: u64, t: Moment)
    requires
        call_ensures(calendar::epoch_to_ymd_hms, (secs,), t),
    ensures
        calendar::is_date(t.year as int, t.month as int, t.day as int),
        calendar::day_number(t.year as int, t.month as int, t.day as int) == secs / 86_400,
        t.hour == secs % 86_400 / 3_600,
        t.minute == secs % 3_600 / 60,
        t.second == secs % 60,
{
    let n = calendar::day_number(t.year as int, t.month as int, t.day as int);
    assert(secs == n * 86_400 + t.hour * 3_600 + t.minute * 60 + t.second);
}

/// The name of a moment is its date and time, in fixed widths.
pub proof fn stamps_are_date_and_time(t: &Moment, s: String)
    requires
        call_ensures(calendar::stamp, (t,), s),
    ensures
        s@ == calendar::padded(t.year as nat, 4) + calendar::padded(t.month as nat, 2)
            + calendar::padded(t.day as nat, 2) + "T"@ + calendar::padded(t.hour as nat, 2)
            + calendar::padded(t.minute as nat, 2) + calendar::padded(t.second as nat, 2) + "Z"@,
{
}

/// A number is padded with zeros in front, up to the width, and never cut.
pub proof fn numbers_are_padded_with_zeros(n: nat, width: int)
    ensures
        ({
            let p = calendar::padded(n, width);
            let d = text::decimal(n);
            &&& p.len() == (if d.len() < width {
                width
            } else {
                d.len() as int
            })
            &&& p.skip(p.len() - d.len()) == d
            &&& forall|i: int| 0 <= i < p.len() - d.len() ==> #[trigger] p[i] == '0'
        }),
{
    let d = text::decimal(n);
    lemma_zeros(width - d.len());
    let p = calendar::padded(n, width);
    assert(p.skip(p.len() - d.len()) =~= d);
}

proof fn lemma_zeros(n: int)
    ensures
        calendar::zeros(n).len() == (if n > 0 {
            n
        } else {
            0
        }),
        forall|i: int| 0 <= i < calendar::zeros(n).len() ==> #[trigger] calendar::zeros(n)[i] == '0',
    decreases n,
{
    if n > 0 {
        lemma_zeros(n - 1);
    }
}

// ----- backups ------------------------------------------------------------------

/// A backup goes to standard output, into the directory under a dated name, or to the
/// path, as the operator gave it.
pub proof fn backup_goes_where_it_is_sent(is_dir: Option<bool>, stamp: &str, d: Destination)
    requires
        call_ensures(backup::resolve_out, (is_dir, stamp), d),
    ensures
        is_dir is None <==> d is Stdout,
        is_dir == Some(false) <==> d is Path,
        is_dir == Some(true) ==> (d matches Destination::InDirectory(n) && n@ == "shade-"@ + stamp@
            + ".db"@),
{
}

/// A restore needs a backup, overwrites only on demand, and never a database in use.
pub proof fn restore_is_careful(
    exists_: bool,
    s: Result<(), RestoreRefusal>,
    target: bool,
    force: bool,
    t: Result<RestoreStep, RestoreRefusal>,
    free: bool,
    l: Result<RestoreStep, RestoreRefusal>,
)
    requires
        call_ensures(backup::check_source, (exists_,), s),
        call_ensures(backup::check_target, (target, force), t),
        call_ensures(backup::check_lock, (free,), l),
    ensures
        s is Ok <==> exists_,
        s is Err ==> s == Err::<(), RestoreRefusal>(RestoreRefusal::MissingBackup),
        !target ==> t == Ok::<RestoreStep, RestoreRefusal>(RestoreStep::Copy),
        target && force ==> t == Ok::<RestoreStep, RestoreRefusal>(RestoreStep::ProbeLock),
        target && !force ==> t == Err::<RestoreStep, RestoreRefusal>(RestoreRefusal::Exists),
        free ==> l == Ok::<RestoreStep, RestoreRefusal>(RestoreStep::Copy),
        !free ==> l == Err::<RestoreStep, RestoreRefusal>(RestoreRefusal::Locked),
{
}

/// A check of a database found nothing if it says `ok`, white space aside.
pub proof fn sound_database_says_ok(report: &str, b: bool)
    requires
        call_ensures(backup::integrity_ok, (report,), b),
    ensures
        b <==> text::trimmed(report@) == "ok"@,
{
}

// ----- configuration ------------------------------------------------------------

/// A session is configured as the network is: its first server, its names, its channels,
/// and its capabilities, with `sasl` where there are credentials.
pub proof fn session_follows_the_network(
    net: &NetworkConfig,
    password: Option<&str>,
    p: SessionPlan,
    i: int,
)
    requires
        call_ensures(daemon::build_session_config, (net, password), Ok(p)),
    ensures
        net.servers@.len() > 0,
        p.server@ == net.servers@[0]@,
        p.tls == net.tls,
        p.session.nick@ == net.nick@,
        p.session.ident@ == net.ident@,
        p.session.realname@ == net.realname@,
        p.session.channels@.len() == net.channels@.len(),
        0 <= i < net.channels@.len() ==> p.session.channels@[i]@ == net.channels@[i]@,
        p.session.desired_caps@.len() >= net.caps@.len(),
        0 <= i < net.caps@.len() ==> p.session.desired_caps@[i]@ == net.caps@[i]@,
        net.sasl is None ==> p.session.desired_caps@.len() == net.caps@.len() && p.session.sasl
            is None,
        net.sasl matches Some(SaslConfig::External) ==> (p.session.sasl matches Some(m) && m
            matches SaslMechanism::External { authzid } && authzid@.len() == 0),
        net.sasl matches Some(SaslConfig::Plain { username, password_env }) ==> password is Some
            && (p.session.sasl matches Some(m) && m matches SaslMechanism::Plain {
            authzid,
            username: u,
            password: w,
        } && authzid@.len() == 0 && u@ == username@ && w@ == password->0@),
{
    let v = p.session@;
    assert(v.channels.len() == p.session.channels@.len());
    assert(text::views(net.channels@).len() == net.channels@.len());
    if 0 <= i < net.channels@.len() {
        assert(v.channels[i] == p.session.channels@[i]@);
    }
    assert(v.desired_caps.len() == p.session.desired_caps@.len());
    assert(text::views(net.caps@).len() == net.caps@.len());
    if 0 <= i < net.caps@.len() {
        assert(v.desired_caps[i] == p.session.desired_caps@[i]@);
        assert(v.desired_caps[i] == text::views(net.caps@)[i]);
    }
}

/// A session that logs in asks for `sasl`, once.
pub proof fn login_needs_the_capability(net: &NetworkConfig, password: Option<&str>, p: SessionPlan)
    requires
        call_ensures(daemon::build_session_config, (net, password), Ok(p)),
        net.sasl is Some,
    ensures
        text::views(p.session.desired_caps@).contains("sasl"@),
        text::views(net.caps@).contains("sasl"@) ==> text::views(p.session.desired_caps@)
            == text::views(net.caps@),
        !text::views(net.caps@).contains("sasl"@) ==> text::views(p.session.desired_caps@)
            == text::views(net.caps@).push("sasl"@),
{
    assert(p.session@.desired_caps == text::views(p.session.desired_caps@));
    daemon::credentials_imply_the_capability(*net);
}

/// There is no session without a server, nor one with a password that is missing; the
/// server is looked for first.
pub proof fn sessions_that_cannot_be(
    net: &NetworkConfig,
    password: Option<&str>,
    r: Result<SessionPlan, SessionConfigError>,
)
    requires
        call_ensures(daemon::build_session_config, (net, password), r),
    ensures
        net.servers@.len() == 0 ==> r == Err::<SessionPlan, SessionConfigError>(
            SessionConfigError::NoServers,
        ),
        net.servers@.len() > 0 && (net.sasl is None || password is Some) ==> r is Ok,
        net.servers@.len() > 0 && (net.sasl matches Some(SaslConfig::External)) ==> r is Ok,
        net.sasl matches Some(SaslConfig::Plain { username, password_env }) ==> (
        net.servers@.len() > 0 && password is None ==> (r matches Err(e) && e
            matches SessionConfigError::MissingPassword(v) && v@ == password_env@)),
{
}

/// A `!ping` is answered where it was asked: in the channel, or to the nick who asked.
/// Nothing else is answered.
pub proof fn ping_is_answered_where_asked(
    target: &str,
    body: &str,
    from: Option<&str>,
    r: Option<String>,
    nick: Seq<char>,
    rest: Seq<char>,
)
    requires
        call_ensures(daemon::ping_reply, (target, body, from), r),
        !nick.contains('!'),
    ensures
        ({
            let asked = text::trimmed(body@) == "!ping"@;
            let public = target@.len() > 0 && (target@[0] == '#' || target@[0] == '&');
            &&& !asked ==> r is None
            &&& asked && public ==> (r matches Some(l) && l@ == "PRIVMSG "@ + target@ + " :pong"@)
            &&& asked && !public && from is None ==> r is None
            &&& asked && !public && from is Some && (from->0@ == nick.push('!') + rest || from->0@
                == nick) ==> (r matches Some(l) && l@ == "PRIVMSG "@ + nick + " :pong"@)
        }),
{
    crate::ircd::message_laws::lemma_split_at(nick, rest, '!');
    text::lemma_position(nick, '!');
}

/// Log formats go by their names; any other name is refused.
pub proof fn log_formats_have_names(name: &str, r: Result<LogFormat, String>)
    requires
        call_ensures(config::log_format, (name,), r),
    ensures
        name@ == "json"@ ==> r == Ok::<LogFormat, String>(LogFormat::Json),
        name@ == "text"@ ==> r == Ok::<LogFormat, String>(LogFormat::Text),
        name@ != "json"@ && name@ != "text"@ ==> r is Err,
{
    reveal_strlit("json");
    reveal_strlit("text");
    assert("json"@[0] == 'j');
    assert("text"@[0] == 't');
}

/// The admin listener uses TLS if the authority for clients is there and the certificate
/// that it would use is.
pub proof fn admin_tls_needs_both(ca: bool, server: Option<bool>, node: bool, b: bool)
    requires
        call_ensures(config::admin_tls_present, (ca, server, node), b),
    ensures
        !ca ==> !b,
        ca && server is Some ==> b == server->0,
        ca && server is None ==> b == node,
{
}

} // verus!
