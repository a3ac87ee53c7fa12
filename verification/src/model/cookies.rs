//! Cross-bot op-replay protection.
//!
//! A node that ops a user on another node's behalf publishes a cookie: an
//! authenticated statement of who asked for it, for whom and when. Other nodes
//! verify the cookie before they treat the op as legitimate.
//!
//! - **HMAC-SHA256** over a fixed binary payload, truncated to 128 bits.
//! - **HKDF-SHA256** derives a per-channel key from a shared mesh secret.
//! - **Replay protection**: cookies carry a ULID and a timestamp. Timestamps
//!   outside a window are rejected, and a [`ReplayGuard`] rejects ids that it has
//!   seen recently.

use crate::bytes;
use crate::crypto;
use crate::encoding;
use crate::model::ids;
use crate::model::time;
use crate::text;
use std::collections::VecDeque;
use vstd::prelude::*;
use vstd::string::*;
use vstd::utf8;

verus! {

/// Tag length in bytes.
pub const TAG_LEN: usize = 16;

/// Longest node id and nick in a cookie, in bytes.
pub const MAX_FIELD_BYTES: usize = 32;

/// Cookies whose timestamp is more than this far in the future are rejected.
pub const MAX_FUTURE_SKEW_MS: i64 = 5_000;

/// Cookies whose timestamp is more than this far in the past are rejected.
pub const MAX_PAST_AGE_MS: i64 = 60_000;

/// Default number of ids that a replay guard remembers.
pub const DEFAULT_REPLAY_GUARD_SIZE: usize = 4096;

/// Why a cookie was rejected.
#[derive(Debug, Clone, PartialEq, Eq)]
pub enum CookieError {
    /// The wire form was malformed.
    Malformed(String),
    /// The tag did not match: wrong key, or tampering.
    BadMac,
    /// The timestamp is too far in the future or in the past.
    TimestampOutOfBounds { ts_ms: i64, now_ms: i64 },
    /// The request id was seen recently.
    Replay,
}

impl CookieError {
    /// The message of the error.
    pub fn to_string(&self) -> (s: String)
        ensures
            s@ == match *self {
                CookieError::Malformed(m) => "malformed cookie: "@ + m@,
                CookieError::BadMac => "invalid HMAC tag"@,
                CookieError::TimestampOutOfBounds { ts_ms, now_ms } => "timestamp out of bounds: "@
                    + text::signed_decimal(ts_ms as int) + " vs now "@ + text::signed_decimal(
                    now_ms as int,
                ),
                CookieError::Replay => "replay detected: request_id seen recently"@,
            },
    {
        match self {
            CookieError::Malformed(m) => text::concat("malformed cookie: ", m.as_str()),
            CookieError::BadMac => text::owned("invalid HMAC tag"),
            CookieError::TimestampOutOfBounds { ts_ms, now_ms } => {
                let a = text::concat(
                    "timestamp out of bounds: ",
                    text::signed_string(*ts_ms).as_str(),
                );
                let b = text::concat(a.as_str(), " vs now ");
                text::concat(b.as_str(), text::signed_string(*now_ms).as_str())
            },
            CookieError::Replay => text::owned("replay detected: request_id seen recently"),
        }
    }
}

/// What a [`CookieError`] says.
pub enum CookieErrorView {
    Malformed(Seq<char>),
    BadMac,
    TimestampOutOfBounds { ts_ms: i64, now_ms: i64 },
    Replay,
}

impl View for CookieError {
    type V = CookieErrorView;

    open spec fn view(&self) -> CookieErrorView {
        match *self {
            CookieError::Malformed(m) => CookieErrorView::Malformed(m@),
            CookieError::BadMac => CookieErrorView::BadMac,
            CookieError::TimestampOutOfBounds { ts_ms, now_ms } => {
                CookieErrorView::TimestampOutOfBounds { ts_ms, now_ms }
            },
            CookieError::Replay => CookieErrorView::Replay,
        }
    }
}

/// One cookie payload. Its binary layout is fixed, so the wire form is short
/// enough for an IRC ban mask:
///
/// ```text
///   16  request id, big-endian
///    8  timestamp, big-endian
///    1  length of the requester's node id (at most 32)
///    n  the requester's node id, UTF-8
///    1  length of the target's nick (at most 32)
///    m  the target's nick, UTF-8
/// ```
#[derive(Debug, Clone, PartialEq, Eq)]
pub struct Cookie {
    pub request_id: u128,
    pub ts_ms: i64,
    pub requester_node_id: String,
    pub target_nick: String,
}

/// What a [`Cookie`] says.
pub struct CookieView {
    pub request_id: u128,
    pub ts_ms: i64,
    pub node: Seq<char>,
    pub nick: Seq<char>,
}

impl View for Cookie {
    type V = CookieView;

    open spec fn view(&self) -> CookieView {
        CookieView {
            request_id: self.request_id,
            ts_ms: self.ts_ms,
            node: self.requester_node_id@,
            nick: self.target_nick@,
        }
    }
}

/// The payload of a cookie; `None` if a field is too long.
pub open spec fn payload_of(c: CookieView) -> Option<Seq<u8>> {
    let node = utf8::encode_utf8(c.node);
    let nick = utf8::encode_utf8(c.nick);
    if node.len() > MAX_FIELD_BYTES || nick.len() > MAX_FIELD_BYTES {
        None
    } else {
        Some(
            bytes::be_bytes(c.request_id as nat, 16) + bytes::be_bytes(
                bytes::signed_bits(c.ts_ms),
                8,
            ) + seq![node.len() as u8] + node + seq![nick.len() as u8] + nick,
        )
    }
}

/// The cookie in a payload, or what is wrong with it.
pub open spec fn cookie_in(b: Seq<u8>) -> Result<CookieView, Seq<char>> {
    if b.len() < 26 {
        Err("payload too short"@)
    } else {
        let n = b[24] as int;
        if b.len() < 26 + n {
            Err("truncated node id"@)
        } else if !utf8::valid_utf8(b.subrange(25, 25 + n)) {
            Err("node id not utf-8"@)
        } else {
            let m = b[25 + n] as int;
            if b.len() < 26 + n + m {
                Err("truncated nick"@)
            } else if !utf8::valid_utf8(b.subrange(26 + n, 26 + n + m)) {
                Err("nick not utf-8"@)
            } else {
                Ok(
                    CookieView {
                        request_id: bytes::be_value(b.subrange(0, 16)) as u128,
                        ts_ms: bytes::signed_of(bytes::be_value(b.subrange(16, 24))) as i64,
                        node: utf8::decode_utf8(b.subrange(25, 25 + n)),
                        nick: utf8::decode_utf8(b.subrange(26 + n, 26 + n + m)),
                    },
                )
            }
        }
    }
}

/// Reading a cookie's payload gives the cookie back.
pub proof fn payload_round_trip(c: CookieView)
    ensures
        payload_of(c) matches Some(b) ==> cookie_in(b) == Ok::<CookieView, Seq<char>>(c),
{
    if let Some(b) = payload_of(c) {
        let node = utf8::encode_utf8(c.node);
        let nick = utf8::encode_utf8(c.nick);
        let n = node.len() as int;
        let m = nick.len() as int;
        let id = bytes::be_bytes(c.request_id as nat, 16);
        let ts = bytes::be_bytes(bytes::signed_bits(c.ts_ms), 8);
        bytes::limits();
        bytes::value_of_bytes(c.request_id as nat, 16);
        bytes::value_of_bytes(bytes::signed_bits(c.ts_ms), 8);
        assert(b.subrange(0, 16) =~= id);
        assert(b.subrange(16, 24) =~= ts);
        assert(b[24] == n as u8);
        assert(b.subrange(25, 25 + n) =~= node);
        assert(b[25 + n] == m as u8);
        assert(b.subrange(26 + n, 26 + n + m) =~= nick);
        utf8::encode_utf8_valid_utf8(c.node);
        utf8::encode_utf8_valid_utf8(c.nick);
        utf8::encode_utf8_decode_utf8(c.node);
        utf8::encode_utf8_decode_utf8(c.nick);
    }
}

impl Cookie {
    /// A cookie for `(requester_node_id, target_nick)` with a fresh id and the
    /// current time.
    #[must_use]
    pub fn new(requester_node_id: &str, target_nick: &str) -> (c: Self)
        ensures
            c@.node == requester_node_id@,
            c@.nick == target_nick@,
            ids::is_fresh(c@.request_id),
            time::is_reading(c@.ts_ms),
            c@.ts_ms >= 0,
    {
        Cookie::made_at(ids::fresh_ulid(), time::now_ms(), requester_node_id, target_nick)
    }

    /// A cookie for `(requester_node_id, target_nick)` made at `ts_ms`.
    #[must_use]
    pub fn made_at(request_id: u128, ts_ms: i64, requester_node_id: &str, target_nick: &str) -> (c:
        Self)
        ensures
            c@ == (CookieView {
                request_id,
                ts_ms,
                node: requester_node_id@,
                nick: target_nick@,
            }),
    {
        Cookie {
            request_id,
            ts_ms,
            requester_node_id: text::owned(requester_node_id),
            target_nick: text::owned(target_nick),
        }
    }

    /// Serialize the cookie to its binary layout. Returns `None` if either
    /// string field exceeds [`MAX_FIELD_BYTES`] bytes.
    #[must_use]
    pub fn to_bytes(&self) -> (r: Option<Vec<u8>>)
        ensures
            r is Some == payload_of(self@) is Some,
            r matches Some(v) ==> payload_of(self@) == Some(v@),
    {
        let mut node = self.requester_node_id.as_str().as_bytes_vec();
        let mut nick = self.target_nick.as_str().as_bytes_vec();
        if node.len() > MAX_FIELD_BYTES || nick.len() > MAX_FIELD_BYTES {
            return None;
        }
        let id = ids::ulid_to_bytes(self.request_id);
        let mut buf = vstd::slice::slice_to_vec(id.as_slice());
        bytes::push_be(&mut buf, bytes::to_bits(self.ts_ms), 8);
        buf.push(node.len() as u8);
        buf.append(&mut node);
        buf.push(nick.len() as u8);
        buf.append(&mut nick);
        assert(buf@ =~= payload_of(self@).unwrap());
        Some(buf)
    }

    /// Reverse of [`Cookie::to_bytes`].
    pub fn from_bytes(buf: &[u8]) -> (r: Result<Self, CookieError>)
        ensures
            match cookie_in(buf@) {
                Ok(c) => r matches Ok(k) && k@ == c,
                Err(m) => r matches Err(e) && e@ == CookieErrorView::Malformed(m),
            },
    {
        if buf.len() < 26 {
            return malformed("payload too short");
        }
        let mut id_bytes: [u8; 16] = [0u8; 16];
        let mut i: usize = 0;
        while i < 16
            invariant
                i <= 16,
                buf@.len() >= 26,
                forall|j: int| 0 <= j < i ==> id_bytes@[j] == buf@[j],
            decreases 16 - i,
        {
            id_bytes[i] = buf[i];
            i = i + 1;
        }
        assert(id_bytes@ =~= buf@.subrange(0, 16));
        let request_id = ids::ulid_from_bytes(id_bytes);
        let ts_ms = bytes::from_bits(bytes::read_be(buf, 16, 24));

        let node_len: usize = buf[24] as usize;
        if buf.len() < 26 + node_len {
            return malformed("truncated node id");
        }
        let node_end: usize = 25 + node_len;
        let node = match text::utf8_str(vstd::slice::slice_subrange(buf, 25, node_end)) {
            Some(s) => text::owned(s),
            None => {
                return malformed("node id not utf-8");
            },
        };
        let nick_len: usize = buf[node_end] as usize;
        if buf.len() - node_end - 1 < nick_len {
            return malformed("truncated nick");
        }
        let nick_start: usize = node_end + 1;
        let nick = match text::utf8_str(
            vstd::slice::slice_subrange(buf, nick_start, nick_start + nick_len),
        ) {
            Some(s) => text::owned(s),
            None => {
                return malformed("nick not utf-8");
            },
        };
        Ok(Cookie { request_id, ts_ms, requester_node_id: node, target_nick: nick })
    }
}

/// A rejection as malformed, with the reason.
fn malformed(reason: &str) -> (r: Result<Cookie, CookieError>)
    ensures
        r matches Err(e) && e@ == CookieErrorView::Malformed(reason@),
{
    Err(CookieError::Malformed(text::owned(reason)))
}

// ----- keys and tags ---------------------------------------------------------

/// The salt of the key derivation, `shade/v1/cookie`; bumped on incompatible
/// changes of the cookie format.
pub open spec fn hkdf_salt() -> Seq<u8> {
    utf8::encode_utf8("shade/v1/cookie"@)
}

/// The key of a channel, derived from the shared mesh secret.
pub open spec fn key_of(mesh_psk: Seq<u8>, channel_name: Seq<char>) -> Seq<u8> {
    crypto::hkdf_sha256(hkdf_salt(), mesh_psk, utf8::encode_utf8(channel_name))
}

/// Derive a 32-byte channel key from the shared mesh secret.
#[must_use]
pub fn derive_channel_key(mesh_psk: &[u8], channel_name: &str) -> (key: [u8; 32])
    ensures
        key@ == key_of(mesh_psk@, channel_name@),
{
    crypto::hkdf_key("shade/v1/cookie".as_bytes(), mesh_psk, channel_name.as_bytes())
}

/// The tag of a payload: the first [`TAG_LEN`] bytes of its HMAC.
pub open spec fn tag_of(key: Seq<u8>, payload: Seq<u8>) -> Seq<u8> {
    crypto::hmac_sha256(key, payload).take(TAG_LEN as int)
}

/// The tag of a payload.
fn tag(key: &[u8; 32], payload: &[u8]) -> (t: Vec<u8>)
    ensures
        t@ == tag_of(key@, payload@),
        t@.len() == TAG_LEN,
{
    let full = crypto::hmac_tag(key.as_slice(), payload);
    let t = vstd::slice::slice_to_vec(
        vstd::slice::slice_subrange(full.as_slice(), 0, TAG_LEN),
    );
    assert(t@ =~= full@.take(TAG_LEN as int));
    t
}

/// Constant-time comparison: no early exit on content. Lengths are not secret.
pub fn ct_eq(a: &[u8], b: &[u8]) -> (r: bool)
    ensures
        r == (a@ == b@),
{
    if a.len() != b.len() {
        return false;
    }
    let mut diff: u8 = 0;
    let mut i: usize = 0;
    while i < a.len()
        invariant
            i <= a.len(),
            a@.len() == b@.len(),
            diff == 0 <==> forall|j: int| 0 <= j < i ==> a@[j] == b@[j],
        decreases a.len() - i,
    {
        let x: u8 = a[i];
        let y: u8 = b[i];
        let ghost d = diff;
        assert((d | (x ^ y)) == 0 <==> (d == 0 && x == y)) by (bit_vector);
        diff = diff | (x ^ y);
        i = i + 1;
    }
    assert(diff == 0 ==> a@ =~= b@);
    diff == 0
}

// ----- replay guard ----------------------------------------------------------

/// Ring-buffer replay guard: remembers the most recent `capacity` request ids,
/// and forgets the oldest to make room. A guard of capacity 0 remembers nothing.
#[derive(Debug)]
pub struct ReplayGuard {
    capacity: usize,
    seen: VecDeque<u128>,
}

/// The state of a replay guard: the remembered ids, oldest first.
pub struct GuardView {
    pub capacity: nat,
    pub seen: Seq<u128>,
}

impl View for ReplayGuard {
    type V = GuardView;

    closed spec fn view(&self) -> GuardView {
        GuardView { capacity: self.capacity as nat, seen: self.seen@ }
    }
}

/// The last `n` ids of a list.
pub open spec fn latest(ids: Seq<u128>, n: nat) -> Seq<u128> {
    if ids.len() <= n {
        ids
    } else {
        ids.skip(ids.len() - n)
    }
}

/// The guard after a fresh id.
pub open spec fn observed(g: GuardView, id: u128) -> GuardView {
    GuardView { seen: latest(g.seen.push(id), g.capacity), ..g }
}

impl ReplayGuard {
    /// A guard that remembers [`DEFAULT_REPLAY_GUARD_SIZE`] ids.
    #[must_use]
    pub fn new() -> (g: Self)
        ensures
            g@ == (GuardView { capacity: 4096, seen: Seq::empty() }),
    {
        ReplayGuard::with_capacity(DEFAULT_REPLAY_GUARD_SIZE)
    }

    /// A guard that remembers `capacity` ids.
    #[must_use]
    pub fn with_capacity(capacity: usize) -> (g: Self)
        ensures
            g@ == (GuardView { capacity: capacity as nat, seen: Seq::empty() }),
    {
        ReplayGuard { capacity, seen: VecDeque::new() }
    }

    /// Record `id` as seen. Returns `false` if it was already remembered, and
    /// `true` if it was fresh (and is remembered now).
    pub fn observe(&mut self, id: u128) -> (fresh: bool)
        ensures
            fresh == !old(self)@.seen.contains(id),
            final(self)@ == if fresh {
                observed(old(self)@, id)
            } else {
                old(self)@
            },
    {
        let mut i: usize = 0;
        while i < self.seen.len()
            invariant
                i <= self.seen@.len(),
                self@ == old(self)@,
                forall|j: int| 0 <= j < i ==> self.seen@[j] != id,
            decreases self.seen@.len() - i,
        {
            if self.seen[i] == id {
                assert(self@.seen[i as int] == id);
                return false;
            }
            i = i + 1;
        }
        assert(!self@.seen.contains(id));
        self.seen.push_back(id);
        let ghost all = self.seen@;
        assert(all =~= old(self)@.seen.push(id));
        assert(all.skip(0) =~= all);
        while self.seen.len() > self.capacity
            invariant
                self.capacity == old(self)@.capacity,
                self.seen@.len() <= all.len(),
                self.seen@ == all.skip(all.len() - self.seen@.len()),
                all.len() > self.capacity ==> self.seen@.len() >= self.capacity,
                all.len() <= self.capacity ==> self.seen@ == all,
            decreases self.seen@.len(),
        {
            let ghost before = self.seen@;
            let _ = self.seen.pop_front();
            assert(self.seen@ =~= before.drop_first());
            assert(self.seen@ =~= all.skip(all.len() - self.seen@.len()));
        }
        assert(self.seen@ =~= latest(all, self.capacity as nat));
        true
    }
}

impl Default for ReplayGuard {
    /// A guard that remembers [`DEFAULT_REPLAY_GUARD_SIZE`] ids.
    fn default() -> (g: Self)
        ensures
            g@ == (GuardView { capacity: 4096, seen: Seq::empty() }),
    {
        ReplayGuard::new()
    }
}

/// A guard never remembers more than its capacity.
pub proof fn guard_is_bounded(g: GuardView, id: u128)
    ensures
        observed(g, id).seen.len() <= g.capacity,
        observed(g, id).capacity == g.capacity,
{
}

/// A guard that remembers the latest ids of a history remembers the latest ids of
/// the history with one id more.
pub proof fn guard_holds_the_latest(g: GuardView, history: Seq<u128>, id: u128)
    requires
        g.seen == latest(history, g.capacity),
    ensures
        observed(g, id).seen == latest(history.push(id), g.capacity),
{
    assert(latest(latest(history, g.capacity).push(id), g.capacity) =~= latest(
        history.push(id),
        g.capacity,
    ));
}

/// A fresh id is remembered, and everything but the oldest id stays so.
pub proof fn guard_remembers(g: GuardView, id: u128, k: int)
    requires
        g.capacity > 0,
        g.seen.len() <= g.capacity,
        1 <= k < g.seen.len(),
    ensures
        observed(g, id).seen.contains(id),
        observed(g, id).seen.contains(g.seen[k]),
{
    let after = observed(g, id).seen;
    assert(after[after.len() - 1] == id);
    if g.seen.len() == g.capacity {
        assert(after[k - 1] == g.seen[k]);
    } else {
        assert(after[k] == g.seen[k]);
    }
}

// ----- making and verifying --------------------------------------------------

/// Whether a timestamp is acceptable at time `now`.
pub open spec fn in_window(ts_ms: i64, now: i64) -> bool {
    ts_ms - now <= MAX_FUTURE_SKEW_MS && now - ts_ms <= MAX_PAST_AGE_MS
}

/// The judgement on an authentic payload at time `now`.
pub open spec fn judge_payload(payload: Seq<u8>, g: GuardView, now: i64) -> Result<
    CookieView,
    CookieErrorView,
> {
    match cookie_in(payload) {
        Err(m) => Err(CookieErrorView::Malformed(m)),
        Ok(c) => if !in_window(c.ts_ms, now) {
            Err(CookieErrorView::TimestampOutOfBounds { ts_ms: c.ts_ms, now_ms: now })
        } else if g.seen.contains(c.request_id) {
            Err(CookieErrorView::Replay)
        } else {
            Ok(c)
        },
    }
}

/// The judgement on a payload and the tag it came with.
pub open spec fn judge_tagged(
    payload: Seq<u8>,
    tag: Seq<u8>,
    key: Seq<u8>,
    g: GuardView,
    now: i64,
) -> Result<CookieView, CookieErrorView> {
    if tag.len() != TAG_LEN {
        Err(CookieErrorView::Malformed("tag length"@))
    } else if tag != tag_of(key, payload) {
        Err(CookieErrorView::BadMac)
    } else {
        judge_payload(payload, g, now)
    }
}

/// The judgement on a wire form, `payload.tag`, at time `now`.
pub open spec fn judge(wire: Seq<char>, key: Seq<u8>, g: GuardView, now: i64) -> Result<
    CookieView,
    CookieErrorView,
> {
    match text::split_once_at(wire, '.') {
        None => Err(CookieErrorView::Malformed("missing separator"@)),
        Some((payload_text, tag_text)) => match encoding::base64_url_decoded(payload_text) {
            Err(_) => Err(CookieErrorView::Malformed("payload base64"@)),
            Ok(payload) => match encoding::base64_url_decoded(tag_text) {
                Err(_) => Err(CookieErrorView::Malformed("tag base64"@)),
                Ok(tag) => judge_tagged(payload, tag, key, g, now),
            },
        },
    }
}

/// The guard after a judgement: only an accepted cookie is remembered.
pub open spec fn guard_after(
    g: GuardView,
    verdict: Result<CookieView, CookieErrorView>,
) -> GuardView {
    match verdict {
        Ok(c) => observed(g, c.request_id),
        Err(_) => g,
    }
}

/// The view of a verification result.
pub open spec fn verdict_view(r: Result<Cookie, CookieError>) -> Result<
    CookieView,
    CookieErrorView,
> {
    match r {
        Ok(c) => Ok(c@),
        Err(e) => Err(e@),
    }
}

/// Whether a wire form is accepted under `key` as the cookie `c`, at any time
/// within the window and by any guard that does not remember its id.
pub open spec fn stands_for(wire: Seq<char>, key: Seq<u8>, c: CookieView) -> bool {
    forall|g: GuardView, now: i64|
        in_window(c.ts_ms, now) && !g.seen.contains(c.request_id) ==> #[trigger] judge(
            wire,
            key,
            g,
            now,
        ) == Ok::<CookieView, CookieErrorView>(c)
}

/// Build the wire form of a cookie: payload and tag as URL-safe base64, with a
/// full stop between them. `None` if a field of the cookie is too long.
///
/// The wire form is accepted by [`verify_at`] under the same key.
#[must_use]
pub fn make(cookie: &Cookie, channel_key: &[u8; 32]) -> (r: Option<String>)
    ensures
        r is Some == payload_of(cookie@) is Some,
        r matches Some(w) ==> {
            let payload = payload_of(cookie@).unwrap();
            &&& w@ == encoding::base64_url(payload) + seq!['.'] + encoding::base64_url(
                tag_of(channel_key@, payload),
            )
            &&& stands_for(w@, channel_key@, cookie@)
        },
{
    let payload = match cookie.to_bytes() {
        Some(p) => p,
        None => {
            return None;
        },
    };
    let t = tag(channel_key, payload.as_slice());
    proof {
        payload_round_trip(cookie@);
        lemma_payload_len(cookie@);
    }
    let mut wire = encoding::encode_url(payload.as_slice());
    let ghost head = wire@;
    wire.push('.');
    let tail = encoding::encode_url(t.as_slice());
    wire.append(tail.as_str());
    proof {
        assert(wire@ =~= head + seq!['.'] + tail@);
        encoding::url_safe_is_plain(head);
        text::lemma_position_is(wire@, '.', head.len() as int);
        assert(wire@.take(head.len() as int) =~= head);
        assert(wire@.skip(head.len() as int + 1) =~= tail@);
        assert forall|g: GuardView, now: i64|
            in_window(cookie@.ts_ms, now) && !g.seen.contains(
                cookie@.request_id,
            ) implies #[trigger] judge(wire@, channel_key@, g, now) == Ok::<
            CookieView,
            CookieErrorView,
        >(cookie@) by {
            assert(text::split_once_at(wire@, '.') == Some((head, tail@)));
        }
    }
    Some(wire)
}

proof fn lemma_payload_len(c: CookieView)
    ensures
        payload_of(c) matches Some(b) ==> b.len() <= 90,
{
    bytes::limits();
    bytes::value_of_bytes(c.request_id as nat, 16);
    bytes::value_of_bytes(bytes::signed_bits(c.ts_ms), 8);
}

/// Verify a wire-form cookie at time `now`. On success the guard remembers its
/// id, so the same cookie cannot be replayed; otherwise the guard is unchanged.
pub fn verify_at(
    wire: &str,
    channel_key: &[u8; 32],
    replay_guard: &mut ReplayGuard,
    now: i64,
) -> (r: Result<Cookie, CookieError>)
    ensures
        verdict_view(r) == judge(wire@, channel_key@, old(replay_guard)@, now),
        final(replay_guard)@ == guard_after(old(replay_guard)@, verdict_view(r)),
{
    let (payload_text, tag_text) = match text::split_once(wire, '.') {
        Some(p) => p,
        None => {
            return malformed("missing separator");
        },
    };
    let payload = match encoding::decode_url(payload_text) {
        Ok(p) => p,
        Err(_) => {
            return malformed("payload base64");
        },
    };
    let given = match encoding::decode_url(tag_text) {
        Ok(t) => t,
        Err(_) => {
            return malformed("tag base64");
        },
    };
    verify_tagged(payload.as_slice(), given.as_slice(), channel_key, replay_guard, now)
}

/// Verify a payload and the tag it came with, at time `now`.
pub fn verify_tagged(
    payload: &[u8],
    given: &[u8],
    channel_key: &[u8; 32],
    replay_guard: &mut ReplayGuard,
    now: i64,
) -> (r: Result<Cookie, CookieError>)
    ensures
        verdict_view(r) == judge_tagged(
            payload@,
            given@,
            channel_key@,
            old(replay_guard)@,
            now,
        ),
        final(replay_guard)@ == guard_after(old(replay_guard)@, verdict_view(r)),
{
    if given.len() != TAG_LEN {
        return malformed("tag length");
    }
    let expected = tag(channel_key, payload);
    if !ct_eq(expected.as_slice(), given) {
        return Err(CookieError::BadMac);
    }
    verify_payload(payload, replay_guard, now)
}

/// Judge an authentic payload at time `now`.
pub fn verify_payload(payload: &[u8], replay_guard: &mut ReplayGuard, now: i64) -> (r: Result<
    Cookie,
    CookieError,
>)
    ensures
        verdict_view(r) == judge_payload(payload@, old(replay_guard)@, now),
        final(replay_guard)@ == guard_after(old(replay_guard)@, verdict_view(r)),
{
    let cookie = match Cookie::from_bytes(payload) {
        Ok(c) => c,
        Err(e) => {
            return Err(e);
        },
    };
    let ahead: i128 = cookie.ts_ms as i128 - now as i128;
    if ahead > MAX_FUTURE_SKEW_MS as i128 || -ahead > MAX_PAST_AGE_MS as i128 {
        return Err(CookieError::TimestampOutOfBounds { ts_ms: cookie.ts_ms, now_ms: now });
    }
    if !replay_guard.observe(cookie.request_id) {
        return Err(CookieError::Replay);
    }
    Ok(cookie)
}

/// Verify a wire-form cookie now. The outcome is that of [`verify_at`] at the
/// time that the clock shows.
pub fn verify(
    wire: &str,
    channel_key: &[u8; 32],
    replay_guard: &mut ReplayGuard,
) -> (r: Result<Cookie, CookieError>)
    ensures
        exists|now: i64|
            time::is_reading(now) && verdict_view(r) == #[trigger] judge(
                wire@,
                channel_key@,
                old(replay_guard)@,
                now,
            ),
        final(replay_guard)@ == guard_after(old(replay_guard)@, verdict_view(r)),
{
    let now = time::now_ms();
    verify_at(wire, channel_key, replay_guard, now)
}

/// An accepted cookie is rejected as a replay when it comes again while its
/// timestamp is still acceptable. A guard of capacity 0 rejects no replay.
pub proof fn accepted_once(wire: Seq<char>, key: Seq<u8>, g: GuardView, now: i64, later: i64)
    requires
        g.capacity > 0,
        judge(wire, key, g, now) is Ok,
        in_window(judge(wire, key, g, now)->Ok_0.ts_ms, later),
    ensures
        judge(wire, key, guard_after(g, judge(wire, key, g, now)), later) == Err::<
            CookieView,
            CookieErrorView,
        >(CookieErrorView::Replay),
{
    let c = judge(wire, key, g, now)->Ok_0;
    let after = observed(g, c.request_id).seen;
    assert(after[after.len() - 1] == c.request_id);
    assert(after.contains(c.request_id));
}

/// A cookie is accepted only if its tag is the truncated HMAC of its payload
/// under the key, and its timestamp is within the window.
pub proof fn acceptance_is_authentic(wire: Seq<char>, key: Seq<u8>, g: GuardView, now: i64)
    requires
        judge(wire, key, g, now) is Ok,
    ensures
        text::split_once_at(wire, '.') matches Some(parts) && {
            &&& encoding::base64_url_decoded(parts.0) matches Ok(payload)
            &&& encoding::decodes_to(parts.1, tag_of(key, payload))
            &&& cookie_in(payload) == Ok::<CookieView, Seq<char>>(judge(wire, key, g, now)->Ok_0)
        },
        in_window(judge(wire, key, g, now)->Ok_0.ts_ms, now),
{
}

} // verus!
