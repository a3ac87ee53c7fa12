//! Who a caller is, and what is said of what the caller did.

use crate::api::auth;
use crate::api::auth::{ActorClaim, Bearer, VerifiedActor};
use crate::api::error::ApiError;
use crate::api::login;
use crate::api::record;
use crate::api::users;
use crate::crypto;
use crate::encoding;
use crate::mesh::tls;
use crate::model::audit;
use crate::model::audit::{AuditEntry, AuditSource, DetailValue, Details};
use crate::node::daemon;
use crate::node::pki;
use crate::node::pki::PkiError;
use crate::text;
use crate::text_laws;
use vstd::prelude::*;

verus! {

/// A certificate proves its common name, unless it has none or an empty one.
pub proof fn certificate_names_the_caller(der: Option<&[u8]>, r: Option<VerifiedActor>)
    requires
        call_ensures(auth::admin_actor, (der,), r),
    ensures
        der is None ==> r is None,
        der matches Some(d) ==> {
            &&& tls::common_name_in(d@) is None ==> r is None
            &&& tls::common_name_in(d@) matches Some(n) ==> {
                &&& n.len() == 0 ==> r is None
                &&& n.len() > 0 ==> (r matches Some(a) && a.0@ == n)
            }
        },
{
}

/// A caller goes by the name it claims, and without a claim by the default.
pub proof fn claim_goes_before_default<'a>(c: &'a ActorClaim, d: &'a str, s: &'a str, o: String)
    requires
        call_ensures(ActorClaim::resolve, (c, d), s),
        call_ensures(ActorClaim::resolve_owned, (c, d), o),
    ensures
        c.0 matches Some(n) ==> s@ == n@ && o@ == n@,
        c.0 is None ==> s@ == d@ && o@ == d@,
{
}

/// A header is a bearer's when it starts so. What follows is a token when it is 32 bytes
/// in base64, white space aside, and the token is known by its hash; anything else is
/// malformed.
pub proof fn bearer_shows_a_token(header: &str, rest: Seq<char>, b: Bearer, none: Bearer)
    requires
        call_ensures(auth::read_bearer, (Some(header),), b),
        call_ensures(auth::read_bearer, (None::<&str>,), none),
    ensures
        none is Absent,
        !text::starts_with(header@, "Bearer "@) ==> b is Absent,
        header@ == "Bearer "@ + rest ==> match encoding::base64_url_decoded(text::trimmed(rest)) {
            Ok(secret) => if secret.len() == 32 {
                b matches Bearer::Token(h) && h.0@ == crypto::sha256(secret)
            } else {
                b is Malformed
            },
            Err(_) => b is Malformed,
        },
{
    if header@ == "Bearer "@ + rest {
        let n = "Bearer "@.len() as int;
        assert(header@.take(n) =~= "Bearer "@);
        assert(header@.skip(n) =~= rest);
    }
}

/// A handle of white space is no handle: nobody is created, logs in or gets a certificate
/// under it. Every other handle will do for a user.
pub proof fn blank_handles_are_refused(
    handle: &str,
    u: Result<(), ApiError>,
    l: Result<(), ApiError>,
    c: Result<&str, PkiError>,
)
    requires
        call_ensures(users::check_handle, (handle,), u),
        call_ensures(login::check_login_handle, (handle,), l),
        call_ensures(pki::check_admin_handle, (handle,), c),
    ensures
        ({
            let blank = forall|i: int| 0 <= i < handle@.len() ==> text::is_white(
                #[trigger] handle@[i],
            );
            &&& u is Err <==> blank
            &&& l is Err <==> blank
            &&& blank ==> (c matches Err(e) && e is EmptyHandle)
        }),
        u matches Err(e) ==> e matches ApiError::BadRequest(t) && t@ == "handle must not be empty"@,
        l matches Err(e) ==> e matches ApiError::BadRequest(t) && t@ == "handle must not be empty"@,
{
    text_laws::white_texts_trim_to_nothing(handle@);
}

/// An operator's handle names files, so it has no slash and no zero character; it is taken
/// without the white space around it.
pub proof fn operator_handles_name_files<'a>(handle: &'a str, c: Result<&'a str, PkiError>)
    requires
        call_ensures(pki::check_admin_handle, (handle,), c),
        text::trimmed(handle@).len() > 0,
    ensures
        ({
            let t = text::trimmed(handle@);
            &&& t.contains('/') || t.contains('\0') ==> (c matches Err(e)
                && e matches PkiError::BadHandle(h) && h@ == t)
            &&& !t.contains('/') && !t.contains('\0') ==> (c matches Ok(h) && h@ == t)
        }),
{
}

/// What is done inside a channel is told of the channel and the item, with a colon between
/// them.
pub proof fn scope_goes_before_item(name: &str, item: &str, s: String)
    requires
        call_ensures(record::scoped_target, (name, item), s),
    ensures
        s@.len() == name@.len() + 1 + item@.len(),
        s@.take(name@.len() as int) == name@,
        s@[name@.len() as int] == ':',
        s@.skip(name@.len() as int + 1) == item@,
{
    reveal_strlit(":");
    assert(s@.take(name@.len() as int) =~= name@);
    assert(s@.skip(name@.len() as int + 1) =~= item@);
}

/// A detail is found under its name: the first of that name, and nothing where there is
/// none.
pub proof fn details_are_found_by_name<'a>(
    fields: Vec<(String, DetailValue)>,
    d: &'a Details,
    key: &str,
    r: Option<&'a DetailValue>,
    i: int,
)
    requires
        *d == Details::Fields(fields),
        call_ensures(Details::get, (d, key), r),
        0 <= i < fields@.len(),
        forall|j: int| 0 <= j < i ==> (#[trigger] fields@[j]).0@ != key@,
    ensures
        fields@[i].0@ == key@ ==> (r matches Some(v) && v@ == fields@[i].1@),
        fields@[i].0@ != key@ && i == fields@.len() - 1 ==> r is None,
{
    let fs = audit::field_views(fields@);
    assert forall|j: int| 0 <= j < i implies (#[trigger] fs[j]).0 != key@ by {
        assert(fields@[j].0@ != key@);
    }
    lemma_field(fs, key@, i);
}

proof fn lemma_field(fs: Seq<(Seq<char>, audit::DetailView)>, key: Seq<char>, i: int)
    requires
        0 <= i < fs.len(),
        forall|j: int| 0 <= j < i ==> (#[trigger] fs[j]).0 != key,
    ensures
        fs[i].0 == key ==> audit::field_named(fs, key) == Some(fs[i].1),
        fs[i].0 != key && i == fs.len() - 1 ==> audit::field_named(fs, key) is None,
    decreases i,
{
    reveal_with_fuel(audit::field_named, 2);
    if i > 0 {
        assert(fs[0].0 != key);
        let d = fs.drop_first();
        assert forall|j: int| 0 <= j < i - 1 implies (#[trigger] d[j]).0 != key by {
            assert(d[j] == fs[j + 1]);
        }
        lemma_field(d, key, i - 1);
    }
}

/// Details say what they were given, each value under its own name.
pub proof fn details_say_what_they_were_given(
    k: &str,
    v: &str,
    n: i64,
    k2: &str,
    v2: &str,
    a: Details,
    b: Details,
    c: Details,
)
    requires
        call_ensures(Details::text, (k, v), a),
        call_ensures(Details::number, (k, n), b),
        call_ensures(Details::texts, (k, v, k2, v2), c),
    ensures
        a matches Details::Fields(f) && f@.len() == 1 && f@[0].0@ == k@
            && f@[0].1@ == audit::DetailView::Text(v@),
        b matches Details::Fields(f) && f@.len() == 1 && f@[0].0@ == k@
            && f@[0].1@ == audit::DetailView::Number(n),
        c matches Details::Fields(f) && f@.len() == 2 && f@[0].0@ == k@
            && f@[0].1@ == audit::DetailView::Text(v@) && f@[1].0@ == k2@
            && f@[1].1@ == audit::DetailView::Text(v2@),
{
    if let Details::Fields(f) = a {
        let w = audit::field_views(f@);
        assert(w == seq![(k@, audit::DetailView::Text(v@))]);
        assert(w.len() == 1);
        assert(w[0].0 == f@[0].0@ && w[0].1 == f@[0].1@);
    }
    if let Details::Fields(f) = b {
        let w = audit::field_views(f@);
        assert(w == seq![(k@, audit::DetailView::Number(n))]);
        assert(w.len() == 1);
        assert(w[0].0 == f@[0].0@ && w[0].1 == f@[0].1@);
    }
    if let Details::Fields(f) = c {
        let w = audit::field_views(f@);
        assert(w == seq![
            (k@, audit::DetailView::Text(v@)),
            (k2@, audit::DetailView::Text(v2@)),
        ]);
        assert(w.len() == 2 && w[0].0 == f@[0].0@ && w[0].1 == f@[0].1@ && w[1].0 == f@[1].0@
            && w[1].1 == f@[1].1@);
    }
}

/// An entry says what it was made with; a target or details that are added later change
/// nothing else.
pub proof fn entries_say_what_they_were_made_with(
    ts: i64,
    actor: &str,
    action: &str,
    source: AuditSource,
    target: &str,
    details: Details,
    e: AuditEntry,
    t: AuditEntry,
    d: AuditEntry,
)
    requires
        call_ensures(AuditEntry::new, (ts, actor, action, source), e),
        call_ensures(AuditEntry::with_target, (e, target), t),
        call_ensures(AuditEntry::with_details, (t, details), d),
    ensures
        d.ts == ts && d.actor@ == actor@ && d.action@ == action@ && d.source == source,
        e.target is None,
        d.target matches Some(x) && x@ == target@,
        d.details == details,
        d.id == e.id,
{
}

/// A source is read back from its name; what names no source is the system's.
pub proof fn sources_are_read_from_their_names(
    s: AuditSource,
    name: &'static str,
    t: &str,
    r: AuditSource,
)
    requires
        call_ensures(audit::audit_source_str, (s,), name),
        call_ensures(audit::audit_source_of, (t,), r),
    ensures
        t@ == name@ ==> r == s,
        r != AuditSource::System && r == s ==> t@ == name@,
{
    audit::source_names_are_distinct(s, r);
    reveal_strlit("api");
    reveal_strlit("irc");
    reveal_strlit("mesh");
    reveal_strlit("system");
    assert("api"@[0] != "irc"@[0]);
    assert("api"@.len() != "mesh"@.len() && "irc"@.len() != "mesh"@.len() && "mesh"@.len()
        != "system"@.len() && "api"@.len() != "system"@.len());
}

/// The host of an endpoint is what stands before its last colon; without a colon it is the
/// endpoint.
pub proof fn host_stands_before_the_port(endpoint: &str, s: String)
    requires
        call_ensures(daemon::server_host, (endpoint,), s),
    ensures
        !endpoint@.contains(':') ==> s@ == endpoint@,
        forall|host: Seq<char>, port: Seq<char>|
            !port.contains(':') && endpoint@ == #[trigger] (host.push(':') + port) ==> s@ == host,
{
    assert forall|host: Seq<char>, port: Seq<char>|
        !port.contains(':') && endpoint@ == #[trigger] (host.push(':') + port) implies s@
        == host by {
        reveal_strlit(":");
        assert(host + ":"@ + port =~= host.push(':') + port);
        daemon::endpoint_host(host, port);
    }
    if !endpoint@.contains(':') {
        lemma_no_colon(endpoint@);
    }
}

proof fn lemma_no_colon(s: Seq<char>)
    requires
        !s.contains(':'),
    ensures
        daemon::last_colon(s) < 0,
    decreases s.len(),
{
    if s.len() > 0 {
        assert(s[s.len() - 1] != ':');
        let d = s.drop_last();
        assert(!d.contains(':')) by {
            if d.contains(':') {
                let i = choose|i: int| 0 <= i < d.len() && d[i] == ':';
                assert(s[i] == ':');
            }
        }
        lemma_no_colon(d);
    }
}

} // verus!
