//! Messages between nodes.

use shade::mesh::codec::{read_header, write_frame, CodecError, DEFAULT_MAX_FRAME_BYTES};
use shade::api::auth::admin_actor;
use shade::mesh::handshake::{hello_at, make_hello, run_handshake, HandshakeError};
use shade::mesh::hub::{doubled_backoff, Registry, INITIAL_BACKOFF_MS, MAX_BACKOFF_MS};
use shade::mesh::peer::{peer_cert, peer_identity, PeerCert, PeerError};
use shade::mesh::peer_loop::{
    handle_inbound, opening_request, snapshot_chunks, snapshot_entries, PeerAction,
};
use shade::mesh::tls::{
    cert_node_id, cert_subject_cn, common_name_of, node_of, AlternativeName, CertNames,
    NameText,
};
use shade::model::channel::Channel;
use shade::model::flags::FlagSet;
use shade::model::ids::{ChannelId, UserId};
use shade::model::user::NewUser;
use shade::node::pki::{init_ca, issue_admin_cert, issue_cert};
use shade::proto::frame::Frame;
use shade::proto::handshake::{Goodbye, PeerFeatures, PeerHello, PROTO_VERSION};
use shade::proto::sync::{
    Delete, DeleteKind, SnapshotChunk, SnapshotEntry, SnapshotRequest, Upsert, UpsertKind,
};
use shade::store::users;

fn hello(node_id: &str) -> PeerHello {
    PeerHello {
        node_id: node_id.into(),
        proto_version: PROTO_VERSION,
        features: PeerFeatures::default(),
        clock_ms: 0,
        channels: Vec::new(),
    }
}

#[test]
fn proto_version_is_one() {
    assert_eq!(PROTO_VERSION, 1);
}

#[test]
fn peer_features_defaults_are_false() {
    let f = PeerFeatures::default();
    assert!(!f.roles);
    assert!(!f.cookie_ops);
}

#[test]
fn payload_round_trips_through_its_frame() {
    let payload = vec![7u8; 300];
    let bytes = write_frame(&payload).unwrap();
    assert_eq!(bytes.len(), 304);
    let header = [bytes[0], bytes[1], bytes[2], bytes[3]];
    assert_eq!(header, [0, 0, 1, 44]);
    assert_eq!(read_header(header, DEFAULT_MAX_FRAME_BYTES), Ok(300));
    assert_eq!(&bytes[4..], &payload[..]);
    assert_eq!(write_frame(&[]).unwrap(), vec![0, 0, 0, 0]);
}

#[test]
fn oversize_announced_length_is_rejected_without_allocating() {
    // A header announcing 2 MiB; the limit is 1 MiB by default.
    let huge: u32 = 2 * 1024 * 1024;
    let err = read_header(huge.to_be_bytes(), DEFAULT_MAX_FRAME_BYTES).unwrap_err();
    assert!(matches!(
        err,
        CodecError::FrameTooLarge { announced, limit }
            if announced == huge && limit == DEFAULT_MAX_FRAME_BYTES
    ));
    assert_eq!(
        err.to_string(),
        "frame too large: 2097152 bytes, limit 1048576"
    );
    assert_eq!(CodecError::Io("x".into()).to_string(), "io: x");
    assert_eq!(CodecError::Encode("x".into()).to_string(), "encode: x");
    assert_eq!(CodecError::Decode("x".into()).to_string(), "decode: x");
}

#[test]
fn matched_handshake_succeeds_both_sides() {
    let a_seen = run_handshake(Some(Frame::Hello(hello("node-b"))), "node-b").unwrap();
    let b_seen = run_handshake(Some(Frame::Hello(hello("node-a"))), "node-a").unwrap();
    assert_eq!(a_seen.node_id, "node-b");
    assert_eq!(b_seen.node_id, "node-a");
    let mine = make_hello("node-a", &vec!["#x".to_string()]);
    assert_eq!(mine.channels, vec!["#x"]);
    assert!(mine.clock_ms > 0);
    assert_eq!(run_handshake(Some(Frame::Hello(mine.clone())), "node-a"), Ok(mine));
}

#[test]
fn mismatched_node_id_in_hello_is_rejected() {
    let res = run_handshake(Some(Frame::Hello(hello("node-c"))), "node-b");
    assert!(matches!(
        res,
        Err(HandshakeError::IdentityBindingMismatch { .. })
    ));
    assert_eq!(
        res.unwrap_err().to_string(),
        "PeerHello.node_id `node-c` does not match certificate identity `node-b`"
    );
}

#[test]
fn version_mismatch_is_rejected() {
    let mut wrong = hello("node-b");
    wrong.proto_version = PROTO_VERSION + 100;
    let res = run_handshake(Some(Frame::Hello(wrong)), "node-b");
    assert_eq!(
        res,
        Err(HandshakeError::VersionMismatch {
            ours: 1,
            theirs: 101
        })
    );
    assert_eq!(
        res.unwrap_err().to_string(),
        "proto version mismatch: ours = 1, theirs = 101"
    );
}

#[test]
fn early_close_yields_peer_closed() {
    assert_eq!(run_handshake(None, "node-b"), Err(HandshakeError::PeerClosed));
}

#[test]
fn first_message_must_be_a_hello() {
    let res = run_handshake(Some(Frame::Goodbye(Goodbye { reason: None })), "node-b");
    assert_eq!(res, Err(HandshakeError::UnexpectedFrame));
}

#[test]
fn codec_failures_speak_for_themselves() {
    let e = HandshakeError::Codec(CodecError::FrameTooLarge {
        announced: 9,
        limit: 4,
    });
    assert_eq!(e.to_string(), "frame too large: 9 bytes, limit 4");
    let e = HandshakeError::Codec(CodecError::Io("reset".into()));
    assert_eq!(e.to_string(), "io: reset");
}

#[test]
fn certificates_identify_peers() {
    assert_eq!(
        peer_identity(PeerCert::Missing, None),
        Err(PeerError::PeerCertMissing)
    );
    assert_eq!(
        peer_identity(PeerCert::Anonymous, None),
        Err(PeerError::PeerCertNoIdentity)
    );
    assert_eq!(
        peer_identity(PeerCert::Named("client-node".into()), None),
        Ok("client-node".into())
    );
    assert_eq!(
        peer_identity(PeerCert::Named("server-node".into()), Some("server-node")),
        Ok("server-node".into())
    );
    let err = peer_identity(PeerCert::Named("server-node".into()), Some("other")).unwrap_err();
    assert_eq!(
        err.to_string(),
        "expected peer node_id `other` but cert advertised `server-node`"
    );
}

#[test]
fn dialer_backs_off_to_its_limit() {
    let mut pause = INITIAL_BACKOFF_MS;
    let mut seen = vec![];
    for _ in 0..8 {
        seen.push(pause);
        pause = doubled_backoff(pause, MAX_BACKOFF_MS);
    }
    assert_eq!(
        seen,
        vec![500, 1_000, 2_000, 4_000, 8_000, 16_000, 30_000, 30_000]
    );
    assert_eq!(doubled_backoff(u64::MAX, u64::MAX), u64::MAX);
}

#[test]
fn registry_is_up_while_a_peer_is_connected() {
    let mut r = Registry::new();
    assert!(!r.peers_up());
    r.connected("node-b".into());
    r.connected("node-a".into());
    assert!(r.peers_up());
    assert_eq!(r.peer_node_ids(), vec!["node-a", "node-b"]);
    r.disconnected("node-b");
    assert!(r.peers_up());
    assert_eq!(r.connections(), 1);
    r.disconnected("node-a");
    assert!(!r.peers_up());
    assert!(r.peer_node_ids().is_empty());
}

#[test]
fn snapshot_request_returns_existing_users_then_more_false() {
    assert_eq!(
        opening_request(),
        Frame::SnapshotRequest(SnapshotRequest { since_ts: 0 })
    );
    assert_eq!(
        handle_inbound(Frame::SnapshotRequest(SnapshotRequest { since_ts: 4 })),
        PeerAction::SendSnapshot { since_ts: 4 }
    );
    let alice = users::upsert_in_tx(
        None,
        &NewUser {
            handle: "alice".into(),
            password_hash: None,
            is_bot: false,
            global_flags: FlagSet::none(),
            comment: None,
            hosts: vec![],
        },
        "node-a",
    );
    let entries = snapshot_entries(&vec![alice], &vec![], &vec![], &vec![], &vec![]);
    let chunks = snapshot_chunks(&entries);
    assert_eq!(chunks.len(), 1);
    assert!(!chunks[0].more);
    assert_eq!(chunks[0].entries.len(), 1, "expected the one alice we seeded");
    assert!(matches!(chunks[0].entries[0], SnapshotEntry::User(_)));
}

fn channel(n: u128) -> Channel {
    Channel {
        id: ChannelId(n),
        name: "#x".into(),
        created_at: 1,
        updated_at: 100,
        origin_node: "node-b".into(),
    }
}

#[test]
fn snapshots_are_paged() {
    let empty = snapshot_chunks(&vec![]);
    assert_eq!(
        empty,
        vec![SnapshotChunk {
            entries: vec![],
            more: false
        }]
    );
    for (n, sizes) in [(200usize, vec![200usize]), (201, vec![200, 1]), (400, vec![200, 200])] {
        let entries: Vec<SnapshotEntry> = (0..n)
            .map(|i| SnapshotEntry::Channel(channel(i as u128)))
            .collect();
        let chunks = snapshot_chunks(&entries);
        let got: Vec<usize> = chunks.iter().map(|c| c.entries.len()).collect();
        assert_eq!(got, sizes);
        let last = chunks.len() - 1;
        for (i, c) in chunks.iter().enumerate() {
            assert_eq!(c.more, i != last);
        }
        let all: Vec<SnapshotEntry> = chunks.into_iter().flat_map(|c| c.entries).collect();
        assert_eq!(all, entries);
    }
}

#[test]
fn inbound_messages_ask_for_actions() {
    assert_eq!(handle_inbound(Frame::Hello(hello("n"))), PeerAction::Ignore);
    assert_eq!(
        handle_inbound(Frame::Goodbye(Goodbye { reason: None })),
        PeerAction::Close
    );
    let entries = vec![SnapshotEntry::Channel(channel(1))];
    assert_eq!(
        handle_inbound(Frame::SnapshotChunk(SnapshotChunk {
            entries: entries.clone(),
            more: false
        })),
        PeerAction::ApplyChunk(entries)
    );
    assert_eq!(
        handle_inbound(Frame::Upsert(Upsert {
            kind: UpsertKind::Channel(channel(2))
        })),
        PeerAction::ApplyUpsert(UpsertKind::Channel(channel(2)))
    );
    let d = Delete {
        kind: DeleteKind::User { id: UserId(1) },
        updated_at: 3,
        origin_node: "n".into(),
    };
    assert_eq!(
        handle_inbound(Frame::Delete(d.clone())),
        PeerAction::ApplyDelete(d)
    );
}

fn der_of(pem: &str) -> Vec<u8> {
    pem::parse(pem).unwrap().into_contents()
}

#[test]
fn nodes_are_known_by_their_certificates() {
    let ca = init_ca().unwrap();
    let node = issue_cert("server-node", &ca.cert.contents, &ca.key.contents).unwrap();
    let der = der_of(&node.cert.contents);
    assert_eq!(cert_node_id(&der).as_deref(), Some("server-node"));
    assert_eq!(cert_subject_cn(&der).as_deref(), Some("server-node"));
    let shown = peer_cert(Some(&der));
    assert_eq!(shown, PeerCert::Named("server-node".into()));
    assert_eq!(
        peer_identity(shown, Some("server-node")),
        Ok("server-node".into())
    );
    // Without a domain the common name counts.
    let admin = issue_admin_cert("alice", &ca.cert.contents, &ca.key.contents).unwrap();
    let der = der_of(&admin.cert.contents);
    assert_eq!(cert_node_id(&der).as_deref(), Some("alice"));
    assert_eq!(admin_actor(Some(&der)).unwrap().0, "alice");
    assert_eq!(admin_actor(None), None);
    assert_eq!(peer_cert(None), PeerCert::Missing);
    assert_eq!(peer_cert(Some(b"no certificate")), PeerCert::Anonymous);
    assert_eq!(admin_actor(Some(b"no certificate")), None);
}

#[test]
fn names_decide_in_order() {
    let dns = |s: &str| AlternativeName::Dns(s.into());
    let names = CertNames {
        alternatives: vec![AlternativeName::Other, dns("first"), dns("second")],
        common_name: Some(NameText::Utf8("cn".into())),
    };
    assert_eq!(node_of(&names).as_deref(), Some("first"));
    let names = CertNames {
        alternatives: vec![AlternativeName::Other],
        common_name: Some(NameText::Utf8("cn".into())),
    };
    assert_eq!(node_of(&names).as_deref(), Some("cn"));
    let names = CertNames {
        alternatives: vec![],
        common_name: None,
    };
    assert_eq!(node_of(&names), None);
    let with = |t| CertNames {
        alternatives: vec![],
        common_name: Some(t),
    };
    for t in [NameText::Printable("p".into()), NameText::Ia5("p".into())] {
        assert_eq!(common_name_of(&with(t)).as_deref(), Some("p"));
    }
    assert_eq!(common_name_of(&with(NameText::Other)), None);

    // A domain other than the common name, behind an address.
    let key = rcgen::KeyPair::generate_for(&rcgen::PKCS_ED25519).unwrap();
    let mut params =
        rcgen::CertificateParams::new(vec!["127.0.0.1".to_string(), "a.example".to_string()])
            .unwrap();
    params
        .distinguished_name
        .push(rcgen::DnType::CommonName, "cn");
    let der = params.self_signed(&key).unwrap().der().to_vec();
    assert_eq!(cert_node_id(&der).as_deref(), Some("a.example"));
    assert_eq!(cert_subject_cn(&der).as_deref(), Some("cn"));
    let mut params = rcgen::CertificateParams::default();
    params
        .distinguished_name
        .push(rcgen::DnType::CommonName, "");
    let der = params.self_signed(&key).unwrap().der().to_vec();
    assert_eq!(admin_actor(Some(&der)), None, "an empty name proves nothing");
}

#[test]
fn hello_says_when_it_was_sent() {
    let h = hello_at("node-a", &vec!["#c".to_string()], 77);
    assert_eq!(h.clock_ms, 77);
    assert_eq!(h.node_id, "node-a");
    assert_eq!(h.channels, vec!["#c"]);
    assert_eq!(h.proto_version, PROTO_VERSION);
}

#[test]
fn common_names_are_read_in_each_encoding() {
    let key = rcgen::KeyPair::generate_for(&rcgen::PKCS_ED25519).unwrap();
    let named = |value: rcgen::DnValue| {
        let mut params = rcgen::CertificateParams::default();
        params
            .distinguished_name
            .push(rcgen::DnType::CommonName, value);
        params.self_signed(&key).unwrap().der().to_vec()
    };
    let printable = rcgen::DnValue::PrintableString("alice".try_into().unwrap());
    assert_eq!(cert_subject_cn(&named(printable)).as_deref(), Some("alice"));
    let ia5 = rcgen::DnValue::Ia5String("alice".try_into().unwrap());
    assert_eq!(cert_subject_cn(&named(ia5)).as_deref(), Some("alice"));
    let bmp = rcgen::DnValue::BmpString("alice".try_into().unwrap());
    assert_eq!(cert_subject_cn(&named(bmp)), None);
}
