//! What cookies, roles, tokens and passwords promise.

use crate::bytes;
use crate::crypto;
use crate::encoding;
use crate::model::auth_token::{AuthToken, AuthTokenError, AuthTokenHash};
use crate::model::cookies;
use crate::model::cookies::{Cookie, CookieError, ReplayGuard};
use crate::model::mask::MaskKind;
use crate::model::password;
use crate::model::password::PasswordError;
use crate::model::role;
use crate::model::role::Role;
use crate::model::role_assignment;
use crate::model::time;
use crate::order;
use crate::text;
use vstd::prelude::*;
use vstd::utf8;

verus! {

// ----- bytes --------------------------------------------------------------------

/// Numbers are written with the most significant byte first: the last byte counts ones,
/// and each byte before it 256 times as much.
pub proof fn last_byte_counts_ones(b: Seq<u8>, x: u8)
    ensures
        bytes::be_value(Seq::empty()) == 0,
        bytes::be_value(b.push(x)) == 256 * bytes::be_value(b) + x,
{
    assert(b.push(x).drop_last() =~= b);
}

// ----- cookies ------------------------------------------------------------------

/// The bytes of a cookie stand in fixed places: the request, the time, then the node
/// and the nick, each behind its length.
pub proof fn cookie_layout(c: &Cookie, b: Vec<u8>)
    requires
        call_ensures(Cookie::to_bytes, (c,), Some(b)),
    ensures
        ({
            let node = utf8::encode_utf8(c.requester_node_id@);
            let nick = utf8::encode_utf8(c.target_nick@);
            let n = node.len() as int;
            let m = nick.len() as int;
            &&& n <= 32 && m <= 32
            &&& b@.len() == 26 + n + m
            &&& bytes::be_value(b@.subrange(0, 16)) == c.request_id
            &&& bytes::signed_of(bytes::be_value(b@.subrange(16, 24))) == c.ts_ms
            &&& b@[24] == n
            &&& b@.subrange(25, 25 + n) == node
            &&& b@[25 + n] == m
            &&& b@.subrange(26 + n, 26 + n + m) == nick
        }),
{
    let node = utf8::encode_utf8(c.requester_node_id@);
    let nick = utf8::encode_utf8(c.target_nick@);
    let n = node.len() as int;
    let m = nick.len() as int;
    bytes::limits();
    bytes::value_of_bytes(c.request_id as nat, 16);
    bytes::value_of_bytes(bytes::signed_bits(c.ts_ms), 8);
    assert(b@.subrange(0, 16) =~= bytes::be_bytes(c.request_id as nat, 16));
    assert(b@.subrange(16, 24) =~= bytes::be_bytes(bytes::signed_bits(c.ts_ms), 8));
    assert(b@.subrange(25, 25 + n) =~= node);
    assert(b@.subrange(26 + n, 26 + n + m) =~= nick);
}

/// A cookie can be written if neither of its names is longer than 32 bytes, and only
/// then.
pub proof fn long_names_make_no_cookie(c: &Cookie, r: Option<Vec<u8>>)
    requires
        call_ensures(Cookie::to_bytes, (c,), r),
    ensures
        r is Some <==> utf8::encode_utf8(c.requester_node_id@).len() <= 32 && utf8::encode_utf8(
            c.target_nick@,
        ).len() <= 32,
{
}

/// A cookie that is read has the fields that were written.
pub proof fn cookies_are_read_as_written(c: &Cookie, b: Vec<u8>, s: &[u8], r: Result<
    Cookie,
    CookieError,
>)
    requires
        call_ensures(Cookie::to_bytes, (c,), Some(b)),
        s@ == b@,
        call_ensures(Cookie::from_bytes, (s,), r),
    ensures
        r matches Ok(k) && k.request_id == c.request_id && k.ts_ms == c.ts_ms
            && k.requester_node_id@ == c.requester_node_id@ && k.target_nick@ == c.target_nick@,
{
    cookies::payload_round_trip(c@);
}

/// A cookie is made for the node and the nick that it is asked for.
pub proof fn cookie_is_as_made(id: u128, ts: i64, node: &str, nick: &str, c: Cookie)
    requires
        call_ensures(Cookie::made_at, (id, ts, node, nick), c),
    ensures
        c.request_id == id,
        c.ts_ms == ts,
        c.requester_node_id@ == node@,
        c.target_nick@ == nick@,
{
}

/// An authentic cookie counts from five seconds before its time to a minute after it,
/// once. Only a cookie that counts is remembered.
pub proof fn cookie_counts_within_its_window(
    payload: &[u8],
    g: &mut ReplayGuard,
    now: i64,
    r: Result<Cookie, CookieError>,
    c: cookies::CookieView,
)
    requires
        call_ensures(cookies::verify_payload, (payload, g, now), r),
        cookies::cookie_in(payload@) == Ok::<cookies::CookieView, Seq<char>>(c),
    ensures
        ({
            let early = c.ts_ms > now + 5_000;
            let late = c.ts_ms < now - 60_000;
            let seen = old(g)@.seen.contains(c.request_id);
            &&& early || late ==> r == Err::<Cookie, CookieError>(
                CookieError::TimestampOutOfBounds { ts_ms: c.ts_ms, now_ms: now },
            )
            &&& !early && !late && seen ==> r == Err::<Cookie, CookieError>(CookieError::Replay)
            &&& !early && !late && !seen ==> (r matches Ok(k) && k@ == c)
            &&& r is Err ==> final(g)@ == old(g)@
            &&& r is Ok && old(g)@.capacity > 0 ==> final(g)@.seen.contains(c.request_id)
        }),
{
    if r is Ok && old(g)@.capacity > 0 {
        let after = final(g)@.seen;
        assert(after[after.len() - 1] == c.request_id);
    }
}

/// A cookie is authentic if its tag is the first sixteen bytes of the HMAC of its
/// payload under the key; with any other tag it is refused and not remembered.
pub proof fn tag_decides_authenticity(
    payload: &[u8],
    given: &[u8],
    key: &[u8; 32],
    g: &mut ReplayGuard,
    now: i64,
    r: Result<Cookie, CookieError>,
)
    requires
        call_ensures(cookies::verify_tagged, (payload, given, key, g, now), r),
    ensures
        ({
            let want = crypto::hmac_sha256(key@, payload@).take(16);
            &&& given@.len() != 16 ==> (r matches Err(e) && e matches CookieError::Malformed(m) && m@
                == "tag length"@)
            &&& given@.len() == 16 && given@ != want ==> r == Err::<Cookie, CookieError>(
                CookieError::BadMac,
            )
            &&& given@.len() == 16 && given@ == want ==> cookies::verdict_view(r)
                == cookies::judge_payload(payload@, old(g)@, now)
            &&& r is Err ==> final(g)@ == old(g)@
        }),
{
}

/// The key of a channel is derived from the shared secret and the channel's name.
pub proof fn channel_key_is_derived(psk: &[u8], channel: &str, key: [u8; 32])
    requires
        call_ensures(cookies::derive_channel_key, (psk, channel), key),
    ensures
        key@ == crypto::hkdf_sha256(
            utf8::encode_utf8("shade/v1/cookie"@),
            psk@,
            utf8::encode_utf8(channel@),
        ),
{
}

/// A cookie on the wire is its payload and its tag, in URL-safe base64, with a full stop
/// between them.
pub proof fn wire_is_payload_and_tag(c: &Cookie, key: &[u8; 32], b: Vec<u8>, w: String)
    requires
        call_ensures(Cookie::to_bytes, (c,), Some(b)),
        call_ensures(cookies::make, (c, key), Some(w)),
    ensures
        w@ == encoding::base64_url(b@) + seq!['.'] + encoding::base64_url(
            crypto::hmac_sha256(key@, b@).take(16),
        ),
{
}

/// A guard tells a new id from one it remembers, and remembers the new one; it forgets
/// only the oldest.
pub proof fn guard_tells_new_from_seen(g: &mut ReplayGuard, id: u128, fresh: bool)
    requires
        call_ensures(ReplayGuard::observe, (g, id), fresh),
        old(g)@.seen.len() <= old(g)@.capacity,
    ensures
        fresh == !old(g)@.seen.contains(id),
        !fresh ==> final(g)@ == old(g)@,
        final(g)@.capacity == old(g)@.capacity,
        fresh && old(g)@.seen.len() < old(g)@.capacity ==> final(g)@.seen == old(g)@.seen.push(id),
        fresh && old(g)@.seen.len() == old(g)@.capacity && old(g)@.capacity > 0 ==> final(g)@.seen
            == old(g)@.seen.skip(1).push(id),
{
    let s = old(g)@.seen;
    if fresh && s.len() == old(g)@.capacity && s.len() > 0 {
        assert(s.push(id).skip(1) =~= s.skip(1).push(id));
    }
}

/// A guard starts out remembering nothing, with room for 4096 ids unless told otherwise.
pub proof fn guard_starts_empty(g: ReplayGuard, n: usize, h: ReplayGuard)
    requires
        call_ensures(ReplayGuard::new, (), g),
        call_ensures(ReplayGuard::with_capacity, (n,), h),
    ensures
        g@.seen.len() == 0 && g@.capacity == 4096,
        h@.seen.len() == 0 && h@.capacity == n,
{
}

// ----- roles --------------------------------------------------------------------

/// How many bots each role goes to.
pub proof fn slots_of_roles(role: Role, n: u8)
    requires
        call_ensures(role::slots_for, (role,), n),
    ensures
        role == Role::Flood || role == Role::Revenge ==> n == 3,
        role == Role::Kick || role == Role::Ban || role == Role::Protect ==> n == 2,
        role == Role::Voice || role == Role::Op || role == Role::Deop || role == Role::Topic || role
            == Role::Limit || role == Role::ChanMode || role == Role::Invite ==> n == 1,
{
}

/// Roles are numbered from one, in the order of the table, and read back by number.
pub proof fn roles_are_numbered(role: Role, n: i64, r: Option<Role>)
    requires
        call_ensures(Role::as_i64, (role,), n),
        call_ensures(Role::from_i64, (n,), r),
    ensures
        r == Some(role),
        1 <= n <= 12,
        role == Role::Voice <==> n == 1,
        role == Role::Flood <==> n == 2,
        role == Role::Op <==> n == 3,
        role == Role::Deop <==> n == 4,
        role == Role::Kick <==> n == 5,
        role == Role::Ban <==> n == 6,
        role == Role::Topic <==> n == 7,
        role == Role::Limit <==> n == 8,
        role == Role::Revenge <==> n == 9,
        role == Role::ChanMode <==> n == 10,
        role == Role::Protect <==> n == 11,
        role == Role::Invite <==> n == 12,
{
    if let Some(s) = r {
        role::position_names_role(s, role);
    }
}

/// The bots of a role stand next to each other in the sorted list of eligible peers,
/// with its end joined to its start. The first of them stands as many places from the
/// start as there are roles before this one.
pub proof fn assignment_walks_the_sorted_list(
    peers: Seq<Seq<char>>,
    role: Role,
    number: i64,
    k: int,
)
    requires
        call_ensures(Role::as_i64, (role,), number),
        0 <= k < role_assignment::assigned(peers.to_set(), role).len(),
    ensures
        ({
            let list = order::listing(peers.to_set());
            let a = role_assignment::assigned(peers.to_set(), role);
            let n = list.len() as int;
            &&& n > 0
            &&& order::strictly_sorted(list)
            &&& list.to_set() == peers.to_set()
            &&& a[0] == list[(number - 1) % n]
            &&& a[k] == list[(number - 1 + k) % n]
        }),
{
    let list = order::listing(peers.to_set());
    let n = list.len() as int;
    vstd::seq_lib::seq_to_set_is_finite(peers);
    order::listing_of_finite(peers.to_set());
    let i = number - 1;
    assert((i % n + 0) % n == i % n && (i % n + k) % n == (i + k) % n) by (nonlinear_arith)
        requires
            n > 0,
            i >= 0,
            k >= 0,
    {
        vstd::arithmetic::div_mod::lemma_add_mod_noop(i, k, n);
        vstd::arithmetic::div_mod::lemma_mod_twice(i, n);
        vstd::arithmetic::div_mod::lemma_add_mod_noop(i % n, k, n);
        vstd::arithmetic::div_mod::lemma_mod_twice(i, n);
    }
}

/// A node holds a role if it is among the bots that the role is assigned to, and only
/// then.
pub proof fn holders_are_the_assigned(eligible: &[String], node: &str, role: Role, b: bool)
    requires
        call_ensures(role_assignment::holds_role, (eligible, node, role), b),
    ensures
        b <==> exists|k: int|
            0 <= k < role_assignment::assigned(text::views(eligible@).to_set(), role).len()
                && #[trigger] role_assignment::assigned(
                text::views(eligible@).to_set(),
                role,
            )[k] == node@,
{
}

// ----- tokens -------------------------------------------------------------------

/// A token that is written and read, with white space around it or not, is the same
/// token; its hash is that of its secret.
pub proof fn tokens_are_read_as_written(
    t: &AuthToken,
    w: String,
    s: &str,
    r: Result<AuthToken, AuthTokenError>,
    h: AuthTokenHash,
)
    requires
        call_ensures(AuthToken::to_wire, (t,), w),
        text::trimmed(s@) == text::trimmed(w@),
        call_ensures(AuthToken::from_wire, (s,), r),
        call_ensures(AuthToken::hash, (t,), h),
    ensures
        r matches Ok(u) && u@ == t@,
        h.0@ == crypto::sha256(t@),
{
}

/// A text that does not decode, or not to 32 bytes, is no token.
pub proof fn other_texts_are_no_tokens(s: &str, r: Result<AuthToken, AuthTokenError>)
    requires
        call_ensures(AuthToken::from_wire, (s,), r),
    ensures
        r matches Ok(t) ==> t@.len() == 32 && encoding::decodes_to(text::trimmed(s@), t@),
        r is Err <==> !(encoding::base64_url_decoded(text::trimmed(s@)) matches Ok(b) && b.len()
            == 32),
{
}

// ----- passwords ----------------------------------------------------------------

/// Passwords are hashed with 64 MiB, three passes and one lane.
pub proof fn passwords_are_hashed_with_these_costs(
    password: &str,
    salt: &str,
    r: Result<String, PasswordError>,
)
    requires
        call_ensures(password::hash_with_salt, (password, salt), r),
    ensures
        r matches Ok(h) ==> crypto::argon2id_phc(password@, salt@, 65_536, 3, 1) == Ok::<
            Seq<char>,
            Seq<char>,
        >(h@),
        r is Err ==> crypto::argon2id_phc(password@, salt@, 65_536, 3, 1) is Err,
{
}

/// A password gets in where its hash says so, and nowhere else.
pub proof fn password_is_judged_by_its_hash(
    password: &str,
    encoded: &str,
    r: Result<bool, PasswordError>,
)
    requires
        call_ensures(password::verify, (password, encoded), r),
    ensures
        r == Ok::<bool, PasswordError>(true) ==> crypto::argon2_matches(password@, encoded@) == Ok::<
            bool,
            Seq<char>,
        >(true),
        r == Ok::<bool, PasswordError>(false) ==> crypto::argon2_matches(password@, encoded@) == Ok::<
            bool,
            Seq<char>,
        >(false),
        r == Ok::<bool, PasswordError>(true) <==> crypto::accepts(encoded@, password@),
        crypto::phc_error(encoded@) is Some ==> (r matches Err(e) && e
            matches PasswordError::InvalidHash(m) && Some(m@) == crypto::phc_error(encoded@)),
{
}

// ----- masks and time -----------------------------------------------------------

/// Mask kinds are numbered from one and read back by number; no other number is a kind.
pub proof fn mask_kinds_are_numbered(k: MaskKind, n: i64, v: i64, r: Option<MaskKind>)
    requires
        call_ensures(MaskKind::as_i64, (k,), n),
        call_ensures(MaskKind::from_i64, (v,), r),
    ensures
        k == MaskKind::Ban ==> n == 1,
        k == MaskKind::Exempt ==> n == 2,
        k == MaskKind::Invite ==> n == 3,
        v == n ==> r == Some(k),
        r is Some <==> 1 <= v <= 3,
{
}

/// Milliseconds are a timestamp as they are, as far as they fit.
pub proof fn timestamps_are_milliseconds(m: Option<u128>, t: i64)
    requires
        call_ensures(time::timestamp, (m,), t),
    ensures
        m is None ==> t == 0,
        m matches Some(x) ==> {
            &&& x <= i64::MAX ==> t == x
            &&& x > i64::MAX ==> t == i64::MAX
        },
{
}

/// A moment falls into the second that began at or before it, whether it is before 1970
/// or after.
pub proof fn moments_fall_into_their_second(t: std::time::SystemTime, secs: i64)
    requires
        call_ensures(time::second_of, (t,), secs),
    ensures
        ({
            let at = match time::unix_time(t) {
                Ok(d) => time::nanos(d) as int,
                Err(d) => -(time::nanos(d) as int),
            };
            i64::MIN < secs < i64::MAX ==> secs * 1_000_000_000 <= at < (secs + 1) * 1_000_000_000
        }),
{
}

} // verus!
