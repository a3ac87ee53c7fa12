//! What the nodes of a mesh owe each other.

use crate::mesh::codec;
use crate::mesh::codec::CodecError;
use crate::mesh::handshake;
use crate::mesh::handshake::HandshakeError;
use crate::mesh::hub;
use crate::mesh::hub::Registry;
use crate::mesh::peer;
use crate::mesh::peer::{PeerCert, PeerError};
use crate::mesh::peer_loop;
use crate::mesh::peer_loop::PeerAction;
use crate::mesh::tls;
use crate::mesh::tls::{AlternativeName, CertNames, NameText};
use crate::model::channel::{Channel, ChannelSettings, ChannelUserFlags};
use crate::model::mask::Mask;
use crate::model::user::User;
use crate::order;
use crate::proto::frame::Frame;
use crate::proto::handshake::PeerHello;
use crate::proto::sync::{RowView, SnapshotChunk, SnapshotEntry};
use crate::text;
use crate::views;
use vstd::prelude::*;

verus! {

// ----- frames -------------------------------------------------------------------

/// A frame is four bytes that say how long the payload is, the largest first, and the
/// payload. Reading the header gives that length back, unless it is over the limit.
pub proof fn frames_announce_their_payload(
    payload: &[u8],
    b: Vec<u8>,
    header: [u8; 4],
    limit: u32,
    r: Result<u32, CodecError>,
)
    requires
        call_ensures(codec::write_frame, (payload,), Ok(b)),
        header@ == b@.take(4),
        call_ensures(codec::read_header, (header, limit), r),
    ensures
        b@.len() == 4 + payload@.len(),
        b@.skip(4) == payload@,
        payload@.len() == b@[0] * 0x100_0000 + b@[1] * 0x1_0000 + b@[2] * 0x100 + b@[3],
        payload@.len() <= limit ==> r == Ok::<u32, CodecError>(payload@.len() as u32),
        payload@.len() > limit ==> r == Err::<u32, CodecError>(
            CodecError::FrameTooLarge { announced: payload@.len() as u32, limit },
        ),
{
    codec::frame_round_trip(payload@);
    let h = b@.take(4);
    assert(h.drop_last() =~= seq![b@[0], b@[1], b@[2]]);
    assert(h.drop_last().drop_last() =~= seq![b@[0], b@[1]]);
    assert(h.drop_last().drop_last().drop_last() =~= seq![b@[0]]);
    assert(h.drop_last().drop_last().drop_last().drop_last() =~= Seq::<u8>::empty());
    reveal_with_fuel(crate::bytes::be_value, 5);
}

/// A payload is written if its length can be announced.
pub proof fn announceable_payloads_are_written(payload: &[u8], r: Result<Vec<u8>, CodecError>)
    requires
        call_ensures(codec::write_frame, (payload,), r),
    ensures
        r is Ok <==> payload@.len() <= 0xffff_ffff,
        codec::DEFAULT_MAX_FRAME_BYTES == 1024 * 1024,
{
}

// ----- hellos -------------------------------------------------------------------

/// A hello is accepted, as it is, if it is of this protocol and names the node that the
/// certificate names. The version is looked at first; each refusal says what did not
/// match. Anything but a hello is refused.
pub proof fn only_a_bound_hello_is_accepted(
    first: Option<Frame>,
    cert: &str,
    r: Result<PeerHello, HandshakeError>,
)
    requires
        call_ensures(handshake::run_handshake, (first, cert), r),
    ensures
        first is None ==> r == Err::<PeerHello, HandshakeError>(HandshakeError::PeerClosed),
        first is Some && !(first->0 is Hello) ==> r == Err::<PeerHello, HandshakeError>(
            HandshakeError::UnexpectedFrame,
        ),
        first matches Some(f) ==> (f matches Frame::Hello(h) ==> {
            &&& h.proto_version != 1 ==> r == Err::<PeerHello, HandshakeError>(
                HandshakeError::VersionMismatch { ours: 1, theirs: h.proto_version },
            )
            &&& h.proto_version == 1 && h.node_id@ == cert@ ==> r == Ok::<
                PeerHello,
                HandshakeError,
            >(h)
            &&& h.proto_version == 1 && h.node_id@ != cert@ ==> (r matches Err(e) && e
                matches HandshakeError::IdentityBindingMismatch { claimed, cert_node_id }
                && claimed@ == h.node_id@ && cert_node_id@ == cert@)
        }),
{
}

/// A node's hello names it, this protocol, its time and the channels it is in, and
/// claims no feature.
pub proof fn hello_says_who_we_are(node: &str, channels: &Vec<String>, at: i64, h: PeerHello)
    requires
        call_ensures(handshake::hello_at, (node, channels, at), h),
    ensures
        h.node_id@ == node@,
        h.proto_version == 1,
        !h.features.roles && !h.features.cookie_ops,
        h.clock_ms == at,
        h.channels@.len() == channels@.len(),
        forall|i: int| 0 <= i < channels@.len() ==> #[trigger] h.channels@[i]@ == channels@[i]@,
{
    assert(text::views(h.channels@) == text::views(channels@));
    assert(text::views(h.channels@).len() == h.channels@.len());
    assert(text::views(channels@).len() == channels@.len());
    assert forall|i: int| 0 <= i < channels@.len() implies #[trigger] h.channels@[i]@
        == channels@[i]@ by {
        assert(text::views(h.channels@)[i] == text::views(channels@)[i]);
    }
}

// ----- certificates -------------------------------------------------------------

/// A node goes by the first domain among the alternative names of its certificate, or
/// else by the common name.
pub proof fn first_domain_names_the_node(n: &CertNames, r: Option<String>, i: int)
    requires
        call_ensures(tls::node_of, (n,), r),
    ensures
        0 <= i < n.alternatives@.len() && n.alternatives@[i] is Dns && (forall|j: int|
            0 <= j < i ==> (#[trigger] n.alternatives@[j]) is Other) ==> (r matches Some(s)
            && AlternativeName::Dns(s)@ == n.alternatives@[i]@),
        (forall|j: int| 0 <= j < n.alternatives@.len() ==> (#[trigger] n.alternatives@[j]) is Other)
            ==> text::opt_view(r) == n@.readable_name(),
{
    lemma_domains(n@.alternatives, i);
    assert(forall|j: int|
        0 <= j < n.alternatives@.len() ==> #[trigger] n@.alternatives[j] == n.alternatives@[j]@);
}

proof fn lemma_domains(l: Seq<tls::AlternativeView>, i: int)
    ensures
        0 <= i < l.len() && l[i] is Dns && (forall|j: int| 0 <= j < i ==> (#[trigger] l[j]) is Other)
            ==> tls::domains(l).len() > 0 && tls::AlternativeView::Dns(tls::domains(l)[0]) == l[i],
        (forall|j: int| 0 <= j < l.len() ==> (#[trigger] l[j]) is Other) ==> tls::domains(l).len()
            == 0,
    decreases l.len(),
{
    if l.len() > 0 {
        let t = l.drop_first();
        lemma_domains(t, i - 1);
        assert(forall|j: int| 0 <= j < t.len() ==> #[trigger] t[j] == l[j + 1]);
    }
}

/// A common name is read in each encoding that is text, and in no other.
pub proof fn common_name_is_read(n: &CertNames, r: Option<String>)
    requires
        call_ensures(tls::common_name_of, (n,), r),
    ensures
        n.common_name matches Some(NameText::Utf8(s)) ==> r matches Some(t) && t@ == s@,
        n.common_name matches Some(NameText::Printable(s)) ==> r matches Some(t) && t@ == s@,
        n.common_name matches Some(NameText::Ia5(s)) ==> r matches Some(t) && t@ == s@,
        n.common_name matches Some(NameText::Other) ==> r is None,
        n.common_name is None ==> r is None,
{
}

/// The node at the other end is the one that its certificate names; where one was
/// dialed, it has to be that one.
pub proof fn peer_is_who_its_certificate_names(
    cert: PeerCert,
    expected: Option<&str>,
    r: Result<String, PeerError>,
)
    requires
        call_ensures(peer::peer_identity, (cert, expected), r),
    ensures
        r matches Ok(n) ==> cert == PeerCert::Named(n) && (expected matches Some(e) ==> e@ == n@),
        r is Ok <==> (cert matches PeerCert::Named(n) && (expected matches Some(e) ==> e@ == n@)),
        cert is Missing ==> r == Err::<String, PeerError>(PeerError::PeerCertMissing),
        cert is Anonymous ==> r == Err::<String, PeerError>(PeerError::PeerCertNoIdentity),
{
}

/// What a certificate shows is the node that is read from it.
pub proof fn certificate_shows_its_node(der: &[u8], c: PeerCert, none: PeerCert)
    requires
        call_ensures(peer::peer_cert, (Some(der),), c),
        call_ensures(peer::peer_cert, (None::<&[u8]>,), none),
    ensures
        none == PeerCert::Missing,
        tls::node_in(der@) matches Some(n) ==> c matches PeerCert::Named(s) && s@ == n,
        tls::node_in(der@) is None ==> c == PeerCert::Anonymous,
{
}

// ----- messages -----------------------------------------------------------------

/// Every message is acted on by its own action, with what it carries: rows are merged,
/// deletions are merged, a request is answered from the time it gives, a goodbye closes
/// and a late hello is passed over.
pub proof fn messages_are_acted_on(f: Frame, a: PeerAction)
    requires
        call_ensures(peer_loop::handle_inbound, (f,), a),
    ensures
        f matches Frame::Upsert(u) ==> a == PeerAction::ApplyUpsert(u.kind),
        f matches Frame::Delete(d) ==> a == PeerAction::ApplyDelete(d),
        f matches Frame::SnapshotChunk(c) ==> a == PeerAction::ApplyChunk(c.entries),
        f matches Frame::SnapshotRequest(r) ==> a == (PeerAction::SendSnapshot {
            since_ts: r.since_ts,
        }),
        f is Goodbye <==> a is Close,
        f is Hello <==> a is Ignore,
{
}

/// A node that connects asks for everything.
pub proof fn everything_is_asked_for(f: Frame)
    requires
        call_ensures(peer_loop::opening_request, (), f),
    ensures
        f matches Frame::SnapshotRequest(r) && r.since_ts == 0,
{
}

/// A snapshot holds every row of every kind, each once and each in its place: users,
/// then channels, settings, flags and masks.
pub proof fn snapshot_holds_every_row(
    users: &Vec<User>,
    channels: &Vec<Channel>,
    settings: &Vec<ChannelSettings>,
    flags: &Vec<ChannelUserFlags>,
    masks: &Vec<Mask>,
    v: Vec<SnapshotEntry>,
    i: int,
)
    requires
        call_ensures(peer_loop::snapshot_entries, (users, channels, settings, flags, masks), v),
    ensures
        ({
            let a = users@.len() as int;
            let b = a + channels@.len();
            let c = b + settings@.len();
            let d = c + flags@.len();
            &&& v@.len() == d + masks@.len()
            &&& 0 <= i < users@.len() ==> v@[i]@ == RowView::User(users@[i]@)
            &&& 0 <= i < channels@.len() ==> v@[a + i]@ == RowView::Channel(channels@[i]@)
            &&& 0 <= i < settings@.len() ==> v@[b + i]@ == RowView::ChannelSettings(settings@[i]@)
            &&& 0 <= i < flags@.len() ==> v@[c + i]@ == RowView::ChannelUserFlags(flags@[i]@)
            &&& 0 <= i < masks@.len() ==> v@[d + i]@ == RowView::Mask(masks@[i]@)
        }),
{
    let l = views::list(v@);
    let a = users@.len() as int;
    let b = a + channels@.len();
    let c = b + settings@.len();
    let d = c + flags@.len();
    assert(l.len() == v@.len());
    if 0 <= i < users@.len() {
        assert(l[i] == v@[i]@);
    }
    if 0 <= i < channels@.len() {
        assert(l[a + i] == v@[a + i]@);
    }
    if 0 <= i < settings@.len() {
        assert(l[b + i] == v@[b + i]@);
    }
    if 0 <= i < flags@.len() {
        assert(l[c + i] == v@[c + i]@);
    }
    if 0 <= i < masks@.len() {
        assert(l[d + i] == v@[d + i]@);
    }
}

/// The pages of a snapshot hold its rows, two hundred to a page, in order; each says
/// whether another one follows.
pub proof fn pages_hold_the_snapshot(
    entries: &Vec<SnapshotEntry>,
    r: Vec<SnapshotChunk>,
    i: int,
)
    requires
        call_ensures(peer_loop::snapshot_chunks, (entries,), r),
        0 <= i < entries@.len(),
    ensures
        r@.len() > i / 200,
        r@[i / 200].entries@.len() > i % 200,
        r@[i / 200].entries@[i % 200]@ == entries@[i]@,
        forall|k: int| 0 <= k < r@.len() ==> (#[trigger] r@[k]).more == (k + 1 < r@.len()),
        forall|k: int| 0 <= k < r@.len() ==> (#[trigger] r@[k]).entries@.len() <= 200,
{
    let rows = views::list(entries@);
    let ps = peer_loop::pages(rows);
    assert(views::list(r@).len() == r@.len());
    lemma_row_on_page(rows, i);
    let k = i / 200;
    assert(views::list(r@)[k] == r@[k]@);
    assert(views::list(r@[k].entries@).len() == r@[k].entries@.len());
    assert(views::list(r@[k].entries@)[i % 200] == r@[k].entries@[i % 200]@);
    assert(rows[i] == entries@[i]@);
    peer_loop::last_page_ends_the_snapshot(rows);
    assert forall|k: int| 0 <= k < r@.len() implies (#[trigger] r@[k]).more == (k + 1 < r@.len())
        && r@[k].entries@.len() <= 200 by {
        assert(views::list(r@)[k] == r@[k]@);
        assert(ps[k] == r@[k]@);
        assert(views::list(r@[k].entries@).len() == r@[k].entries@.len());
    }
}

proof fn lemma_row_on_page(rows: Seq<RowView>, i: int)
    requires
        0 <= i < rows.len(),
    ensures
        peer_loop::pages(rows).len() > i / 200,
        peer_loop::pages(rows)[i / 200].entries.len() > i % 200,
        peer_loop::pages(rows)[i / 200].entries[i % 200] == rows[i],
    decreases rows.len(),
{
    if rows.len() > peer_loop::SNAPSHOT_PAGE_SIZE && i >= 200 {
        let rest = rows.skip(200);
        lemma_row_on_page(rest, i - 200);
        assert((i - 200) / 200 == i / 200 - 1 && (i - 200) % 200 == i % 200);
        assert(rest[i - 200] == rows[i]);
        assert(peer_loop::pages(rows)[i / 200] == peer_loop::pages(rest)[i / 200 - 1]);
    }
}

// ----- connections --------------------------------------------------------------

/// A pause is twice the last one, but never longer than the longest.
pub proof fn pauses_double(current: u64, max: u64, n: u64)
    requires
        call_ensures(hub::doubled_backoff, (current, max), n),
    ensures
        2 * current <= max ==> n == 2 * current,
        2 * current > max ==> n == max,
        hub::INITIAL_BACKOFF_MS == 500,
        hub::MAX_BACKOFF_MS == 30_000,
{
}

/// A peer that connects is known by its name and counted; one that goes is neither.
/// Others stay. The mesh is up while a connection is open.
pub proof fn peers_come_and_go(
    r: &mut Registry,
    name: String,
    q: &mut Registry,
    gone: &str,
    other: Seq<char>,
)
    requires
        call_ensures(Registry::connected, (r, name), ()),
        old(r)@.connections < usize::MAX,
        call_ensures(Registry::disconnected, (q, gone), ()),
        old(q)@.connections > 0,
    ensures
        final(r)@.peers.contains(name@),
        final(r)@.connections == old(r)@.connections + 1,
        final(r)@.up,
        other != name@ ==> final(r)@.peers.contains(other) == old(r)@.peers.contains(other),
        !final(q)@.peers.contains(gone@),
        final(q)@.connections == old(q)@.connections - 1,
        final(q)@.up <==> old(q)@.connections > 1,
        other != gone@ ==> final(q)@.peers.contains(other) == old(q)@.peers.contains(other),
{
}

/// The peers that are listed are those that are connected, in order, each once.
pub proof fn connected_peers_are_listed(r: &Registry, v: Vec<String>)
    requires
        call_ensures(Registry::peer_node_ids, (r,), v),
    ensures
        order::strictly_sorted(text::views(v@)),
        forall|n: Seq<char>| r@.peers.contains(n) <==> text::views(v@).contains(n),
{
    order::listing_of_finite(r@.peers);
    assert forall|n: Seq<char>| r@.peers.contains(n) <==> text::views(v@).contains(n) by {
        assert(text::views(v@).to_set().contains(n) <==> text::views(v@).contains(n));
    }
}

} // verus!
