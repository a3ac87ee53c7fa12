//! Certificates, backups, configuration and requests.

use shade::model::time::now_ms;
use shade::node::backup::{
    backup_file_name, check_lock, check_source, check_target, integrity_ok, resolve_out,
    stamp_at, stdout_file_name, utc_stamp, Destination, RestoreRefusal, RestoreStep,
};
use shade::node::calendar::{days_to_ymd, epoch_to_ymd_hms, is_leap, stamp};
use shade::node::cert_names::{ascii_only, identifier_fits, moment_fits, Moment};
use shade::node::config::{
    admin_tls_present, default_true, log_format, LogFormat, LoggingConfig, NetworkConfig,
    SaslConfig,
};
use shade::node::daemon::{
    build_session_config, password_variable, server_host, SessionConfigError,
};
use shade::node::op_observer::{Alert, OpObserver};
use shade::node::pem_text::{read_pem_certs, read_pem_key, PemError};
use shade::node::pki::{
    admin_plan, authority_with, ca_meta, ca_plan, init_ca, issue_admin_cert, issue_cert,
    issue_with, node_plan, sealed, Holder, KeyUsage, PkiError, Purpose, Standing,
};
use shade::node::shadectl::{
    actor_name, audit, base_url, channels, chanset, chattr_channel, client_auth, login, mask,
    users, ChannelsCommand, ChansetCommand, Json, MaskCommand, UsersCommand,
};

// ----- certificates -------------------------------------------------------------

#[test]
fn init_ca_keeps_the_key_private() {
    let ca = init_ca().unwrap();
    assert_eq!(ca.cert.name, "botnet-ca.pem");
    assert_eq!(ca.key.name, "botnet-ca.key");
    assert_eq!(ca.cert.mode, 0o644);
    assert_eq!(ca.key.mode, 0o600, "CA private key must be 0600");
    assert!(ca.cert.contents.contains("BEGIN CERTIFICATE"));
    assert!(ca.key.contents.contains("BEGIN PRIVATE KEY"));
    let meta = ca_meta(7);
    assert_eq!(meta.subject, "Shade Botnet CA");
    assert_eq!(meta.validity_days, 1825);
    assert_eq!(meta.algorithm, "Ed25519");
    assert_eq!(meta.generated_at_ms, 7);
}

fn der_contains(pem: &str, needle: &str) -> bool {
    let der = pem::parse(pem).unwrap();
    der.contents()
        .windows(needle.len())
        .any(|w| w == needle.as_bytes())
}

#[test]
fn issued_cert_carries_the_node_id() {
    let ca = init_ca().unwrap();
    let node = issue_cert("shade-iad-01", &ca.cert.contents, &ca.key.contents).unwrap();
    assert_eq!(node.cert.name, "node.pem");
    assert_eq!(node.key.name, "node.key");
    assert_eq!(node.key.mode, 0o600);
    assert!(node.cert.contents.contains("BEGIN CERTIFICATE"));
    assert!(der_contains(&node.cert.contents, "shade-iad-01"));
    assert!(der_contains(&node.cert.contents, "Shade Botnet CA"));
    assert_ne!(node.key.contents, ca.key.contents);
    let authority = rcgen::CertificateParams::from_ca_cert_pem(&ca.cert.contents).unwrap();
    assert!(matches!(authority.is_ca, rcgen::IsCa::Ca(_)));
    let leaf = rcgen::CertificateParams::from_ca_cert_pem(&node.cert.contents).unwrap();
    assert!(matches!(leaf.is_ca, rcgen::IsCa::NoCa));
    assert_eq!(
        leaf.subject_alt_names,
        vec![rcgen::SanType::DnsName("shade-iad-01".try_into().unwrap())]
    );
    assert_eq!(
        leaf.key_usages,
        vec![
            rcgen::KeyUsagePurpose::DigitalSignature,
            rcgen::KeyUsagePurpose::KeyEncipherment
        ]
    );
    assert_eq!(
        leaf.extended_key_usages,
        vec![
            rcgen::ExtendedKeyUsagePurpose::ServerAuth,
            rcgen::ExtendedKeyUsagePurpose::ClientAuth
        ]
    );
    // The key beside the certificate is the one that it is for.
    let key = rcgen::KeyPair::from_pem(&node.key.contents).unwrap();
    let der = pem::parse(&node.cert.contents).unwrap();
    assert!(der
        .contents()
        .windows(32)
        .any(|w| w == key.public_key_raw()));
}

#[test]
fn issued_admin_cert_is_named_after_its_handle() {
    let ca = init_ca().unwrap();
    let admin = issue_admin_cert(" alice ", &ca.cert.contents, &ca.key.contents).unwrap();
    assert_eq!(admin.cert.name, "alice.pem");
    assert_eq!(admin.key.name, "alice.key");
    assert!(der_contains(&admin.cert.contents, "alice"));
    assert!(der_contains(&admin.cert.contents, "Shade Admin"));
    assert_eq!(
        issue_admin_cert(" ", "", ""),
        Err(PkiError::EmptyHandle)
    );
    assert_eq!(
        issue_admin_cert("a/b", "", ""),
        Err(PkiError::BadHandle("a/b".into()))
    );
    assert_eq!(
        issue_admin_cert("a/b", "", "").unwrap_err().to_string(),
        "--handle `a/b` contains characters not allowed in a filename"
    );
}

#[test]
fn issue_cert_with_empty_node_id_errors() {
    let ca = init_ca().unwrap();
    let err = issue_cert("", &ca.cert.contents, &ca.key.contents).unwrap_err();
    let msg = err.to_string();
    assert!(msg.contains("node-id"), "got: {msg}");
}

#[test]
fn issue_cert_reports_what_is_wrong_with_the_authority() {
    let ca = init_ca().unwrap();
    assert!(matches!(
        issue_cert("n", &ca.cert.contents, "garbage"),
        Err(PkiError::CaKey(_))
    ));
    assert!(matches!(
        issue_cert("n", "garbage", &ca.key.contents),
        Err(PkiError::CaCert(_))
    ));
    let err = issue_cert("nöde", &ca.cert.contents, &ca.key.contents).unwrap_err();
    assert_eq!(err, PkiError::Params("Invalid IA5String: 'nöde'".into()));
    assert_eq!(
        err.to_string(),
        "init node cert params: Invalid IA5String: 'nöde'"
    );
}

/// A self-signed authority with one attribute more in its name.
fn authority_named(kind: rcgen::DnType, value: rcgen::DnValue) -> (String, String) {
    let key = rcgen::KeyPair::generate_for(&rcgen::PKCS_ED25519).unwrap();
    let mut params = rcgen::CertificateParams::default();
    params.is_ca = rcgen::IsCa::Ca(rcgen::BasicConstraints::Unconstrained);
    params.distinguished_name.push(kind, value);
    params.name_constraints = Some(rcgen::NameConstraints {
        permitted_subtrees: vec![rcgen::GeneralSubtree::DnsName("domain.example".into())],
        excluded_subtrees: vec![],
    });
    (params.self_signed(&key).unwrap().pem(), key.serialize_pem())
}

/// The certificate in a PEM text with some of its bytes replaced.
fn patched(cert: &str, from: &[u8], to: &[u8]) -> String {
    assert_eq!(from.len(), to.len());
    let mut der = pem::parse(cert).unwrap().into_contents();
    let mut found = false;
    for i in 0..=der.len() - from.len() {
        if &der[i..i + from.len()] == from {
            der[i..i + to.len()].copy_from_slice(to);
            found = true;
        }
    }
    assert!(found);
    pem::encode(&pem::Pem::new("CERTIFICATE", der))
}

#[test]
fn authorities_with_attributes_of_their_own_can_issue() {
    // emailAddress
    let kind = rcgen::DnType::CustomDnType(vec![1, 2, 840, 113549, 1, 9, 1]);
    let (cert, key) = authority_named(kind, "ca@example".into());
    let node = issue_cert("n1", &cert, &key).unwrap();
    assert!(der_contains(&node.cert.contents, "ca@example"));
}

#[test]
fn authorities_that_cannot_be_written_again_are_refused() {
    let kind = rcgen::DnType::CustomDnType(vec![2, 999, 1]);
    let (cert, key) = authority_named(kind, "x".into());
    assert_eq!(issue_cert("n1", &cert, &key), Err(PkiError::CaUnfit));
    assert_eq!(issue_admin_cert("al", &cert, &key), Err(PkiError::CaUnfit));
    assert_eq!(
        PkiError::CaUnfit.to_string(),
        "re-binding CA cert to its key pair: it holds a name or date that cannot be written"
    );

    let value = rcgen::DnValue::PrintableString("what are you".try_into().unwrap());
    let (cert, key) = authority_named(rcgen::DnType::LocalityName, value);
    assert!(issue_cert("n1", &cert, &key).is_ok());
    let asking = patched(&cert, b"what are you", b"what are yo?");
    assert_eq!(issue_cert("n1", &asking, &key), Err(PkiError::CaUnfit));

    let foreign = patched(&cert, b"domain.example", "dömain.exampl".as_bytes());
    assert_eq!(issue_cert("n1", &foreign, &key), Err(PkiError::CaUnfit));
}

#[test]
fn each_outcome_of_drawing_and_signing_is_told() {
    let fail = || Err::<rcgen::KeyPair, String>("no luck".into());
    let err = authority_with(fail(), 1_000).unwrap_err();
    assert_eq!(err, PkiError::KeyGen(Holder::Authority, "no luck".into()));
    assert_eq!(err.to_string(), "generating CA Ed25519 key pair: no luck");

    let key = rcgen::KeyPair::generate_for(&rcgen::PKCS_ED25519).unwrap();
    let public = key.public_key_raw().to_vec();
    let ca = authority_with(Ok(key), 1_700_000_000).unwrap();
    let der = pem::parse(&ca.cert.contents).unwrap();
    assert!(der.contents().windows(32).any(|w| w == public));
    let read = rcgen::CertificateParams::from_ca_cert_pem(&ca.cert.contents).unwrap();
    assert_eq!(read.not_before.unix_timestamp(), 1_700_000_000 - 60);
    assert_eq!(
        read.not_after.unix_timestamp(),
        1_700_000_000 + 1825 * 86_400
    );

    // A clock before 1970 gives dates before 1970.
    let key = rcgen::KeyPair::generate_for(&rcgen::PKCS_ED25519).unwrap();
    let early = authority_with(Ok(key), -100).unwrap();
    let early = rcgen::CertificateParams::from_ca_cert_pem(&early.cert.contents).unwrap();
    assert_eq!(early.not_before.unix_timestamp(), -160);

    let ca_key = rcgen::KeyPair::from_pem(&ca.key.contents).unwrap();
    let ca_cert = read.self_signed(&ca_key).unwrap();
    let plan = node_plan("n1", 1_700_000_000);
    let err = issue_with(fail(), &plan, Holder::Node, &ca_cert, &ca_key, "c", "k").unwrap_err();
    assert_eq!(err.to_string(), "generating node Ed25519 key pair: no luck");
    let plan = admin_plan("bob", 1_700_000_000);
    let err = issue_with(fail(), &plan, Holder::Admin, &ca_cert, &ca_key, "c", "k").unwrap_err();
    assert_eq!(err.to_string(), "generating admin Ed25519 key pair: no luck");
    let drawn = rcgen::KeyPair::generate_for(&rcgen::PKCS_ED25519).map_err(|e| e.to_string());
    let bob = issue_with(drawn, &plan, Holder::Admin, &ca_cert, &ca_key, "c", "k").unwrap();
    assert_eq!((bob.cert.name.as_str(), bob.key.name.as_str()), ("c", "k"));
    assert!(der_contains(&bob.cert.contents, "bob"));

    let refused = |holder| {
        let no = Err::<rcgen::Certificate, String>("refused".into());
        sealed(no, &ca_key, holder, "c", "k").unwrap_err().to_string()
    };
    assert_eq!(refused(Holder::Authority), "self-signing the CA: refused");
    assert_eq!(refused(Holder::Node), "signing node cert with CA: refused");
    assert_eq!(
        refused(Holder::Admin),
        "signing admin client cert with CA: refused"
    );
    let whole = sealed(Ok(ca_cert), &ca_key, Holder::Authority, "c", "k").unwrap();
    assert_eq!(whole.cert.mode, 0o644);
    assert_eq!(whole.key.contents, ca.key.contents);
    assert_eq!(
        PkiError::CaCert("bad".into()).to_string(),
        "parsing CA certificate (enable rcgen 'x509-parser' feature): bad"
    );
}

#[test]
fn what_certificates_can_hold() {
    assert!(identifier_fits(&vec![2, 5, 4, 3]));
    assert!(identifier_fits(&vec![1, 39]));
    assert!(identifier_fits(&vec![2, 999]));
    assert!(!identifier_fits(&vec![1, 40]));
    assert!(!identifier_fits(&vec![3, 1]));
    assert!(!identifier_fits(&vec![2]));
    assert!(ascii_only("plain"));
    assert!(!ascii_only("nöde"));
    let at = |unix, offset| moment_fits(Moment { unix, offset });
    assert!(at(0, 0));
    // Universal time and the date's own clock disagree on the year.
    assert!(!at(-631_152_001, 3_600));
    assert!(!at(2_524_608_000, -3_600));
    assert!(at(-631_152_001, 0));
    assert!(at(253_402_300_799, 0));
    assert!(!at(253_402_300_800, 0));
    assert!(!at(-62_167_219_201, 0));
}

#[test]
fn plans_say_what_certificates_are_for() {
    let p = ca_plan(1_000_000_000);
    assert_eq!(p.standing, Standing::Authority);
    assert_eq!(p.not_before, 999_999_940);
    assert_eq!(p.not_after, 1_000_000_000 + 1825 * 86_400);
    let p = node_plan("n1", 1_000_000_000);
    assert_eq!(p.common_name, "n1");
    assert_eq!(p.dns_names, vec!["n1"]);
    assert_eq!(p.purposes, vec![Purpose::ServerAuth, Purpose::ClientAuth]);
    assert_eq!(p.not_after, 1_000_000_000 + 730 * 86_400);
    let p = admin_plan("bob", 30);
    assert!(p.dns_names.is_empty());
    assert_eq!(p.organization, "Shade Admin");
    assert_eq!(p.purposes, vec![Purpose::ClientAuth]);
    assert!(!p.key_usages.contains(&KeyUsage::KeyCertSign));
    assert_eq!(p.not_before, -30);
    assert_eq!(ca_plan(i64::MIN).not_before, -62_167_219_200);
    assert_eq!(ca_plan(i64::MAX).not_after, 253_402_300_799);
}

#[test]
fn pem_texts_hold_certificates_and_keys() {
    let ca = init_ca().unwrap();
    let both = format!("{}\n{}", ca.key.contents, ca.cert.contents);
    let certs = read_pem_certs(both.as_bytes()).unwrap();
    assert_eq!(certs.len(), 1);
    assert_eq!(certs[0], pem::parse(&ca.cert.contents).unwrap().contents());
    let key = read_pem_key(both.as_bytes()).unwrap();
    assert_eq!(key, pem::parse(&ca.key.contents).unwrap().contents());
    assert_eq!(
        read_pem_certs(ca.key.contents.as_bytes()),
        Err(PemError::NoCertificate)
    );
    assert_eq!(
        read_pem_key(ca.cert.contents.as_bytes()),
        Err(PemError::NoKey)
    );
    let broken = "-----BEGIN A-----\nAAAA\n-----END B-----\n";
    assert!(matches!(
        read_pem_certs(broken.as_bytes()),
        Err(PemError::Parse(_))
    ));
    assert_eq!(
        PemError::NoKey.message("/x"),
        "no PKCS#8 PRIVATE KEY block in PEM at /x"
    );
}

// ----- backups ------------------------------------------------------------------

#[test]
fn calendar_knows_its_dates() {
    assert_eq!(days_to_ymd(0), (1970, 1, 1));
    assert_eq!(days_to_ymd(58), (1970, 2, 28));
    assert_eq!(days_to_ymd(59), (1970, 3, 1));
    assert_eq!(days_to_ymd(789), (1972, 2, 29));
    assert_eq!(days_to_ymd(11_016), (2000, 2, 29));
    assert_eq!(days_to_ymd(20_088), (2024, 12, 31));
    assert!(is_leap(2000) && is_leap(2024) && !is_leap(1900) && !is_leap(2023));
    assert_eq!(stamp(&epoch_to_ymd_hms(0)), "19700101T000000Z");
    assert_eq!(stamp(&epoch_to_ymd_hms(1_700_000_000)), "20231114T221320Z");
    assert_eq!(stamp(&epoch_to_ymd_hms(951_827_696)), "20000229T123456Z");
}

#[test]
fn backups_are_named_by_the_moment() {
    let s = utc_stamp();
    assert_eq!(s.len(), 16);
    assert!(s.as_str() > "20250101T000000Z");
    assert_eq!(backup_file_name("S"), "shade-S.db");
    assert_eq!(stdout_file_name("S"), "shade-backup-stdout-S.db.tmp");
    assert_eq!(resolve_out(None, "S"), Destination::Stdout);
    assert_eq!(
        resolve_out(Some(true), "S"),
        Destination::InDirectory("shade-S.db".into())
    );
    assert_eq!(resolve_out(Some(false), "S"), Destination::Path);
    assert!(integrity_ok("ok\n"));
    assert!(!integrity_ok("row 3 missing"));
}

#[test]
fn restores_are_guarded() {
    assert_eq!(check_source(true), Ok(()));
    assert_eq!(check_source(false), Err(RestoreRefusal::MissingBackup));
    assert_eq!(check_target(false, false), Ok(RestoreStep::Copy));
    assert_eq!(check_target(true, false), Err(RestoreRefusal::Exists));
    assert_eq!(check_target(true, true), Ok(RestoreStep::ProbeLock));
    assert_eq!(check_lock(true), Ok(RestoreStep::Copy));
    assert_eq!(check_lock(false), Err(RestoreRefusal::Locked));
    assert_eq!(
        RestoreRefusal::Exists.message("x.db"),
        "x.db already exists; pass --force to overwrite it"
    );
    assert_eq!(
        RestoreRefusal::MissingBackup.message("x.db"),
        "backup file not found: x.db"
    );
}

// ----- configuration ------------------------------------------------------------

fn network(sasl: Option<SaslConfig>, caps: Vec<String>) -> NetworkConfig {
    NetworkConfig {
        name: "libera".into(),
        servers: vec!["irc.libera.chat:6697".into()],
        nick: "shade".into(),
        ident: "shade".into(),
        realname: "Shade IRC Bot".into(),
        tls: true,
        sasl,
        caps,
        channels: vec!["#shade".into()],
    }
}

#[test]
fn session_config_follows_the_network() {
    let p = build_session_config(&network(None, vec!["server-time".into()]), None).unwrap();
    assert_eq!(p.server, "irc.libera.chat:6697");
    assert_eq!(p.server_name, "irc.libera.chat");
    assert!(p.tls);
    assert_eq!(p.session.desired_caps, vec!["server-time"]);
    assert!(p.session.sasl.is_none());
    let p = build_session_config(&network(Some(SaslConfig::External), vec![]), None).unwrap();
    assert_eq!(p.session.desired_caps, vec!["sasl"]);
    let p = build_session_config(
        &network(Some(SaslConfig::External), vec!["sasl".into()]),
        None,
    )
    .unwrap();
    assert_eq!(p.session.desired_caps, vec!["sasl"]);
    let mut none = network(None, vec![]);
    none.servers = vec![];
    assert_eq!(
        build_session_config(&none, None),
        Err(SessionConfigError::NoServers)
    );
}

#[test]
fn session_config_needs_the_password_it_names() {
    let net = network(
        Some(SaslConfig::Plain {
            username: "shade".into(),
            password_env: "SHADE_PW".into(),
        }),
        vec![],
    );
    assert_eq!(password_variable(&net), Some("SHADE_PW"));
    let err = build_session_config(&net, None).unwrap_err();
    assert_eq!(err.to_string(), "reading SASL password from $SHADE_PW");
    let p = build_session_config(&net, Some("hunter2")).unwrap();
    assert_eq!(p.session.sasl.unwrap().raw_payload(), b"\0shade\0hunter2");
    assert_eq!(password_variable(&network(None, vec![])), None);
}

#[test]
fn endpoints_have_hosts() {
    assert_eq!(server_host("irc.example:6667"), "irc.example");
    assert_eq!(server_host("[::1]:6667"), "[::1]");
    assert_eq!(server_host("irc.example"), "irc.example");
}

#[test]
fn logging_and_tls_defaults() {
    let l = LoggingConfig::default();
    assert_eq!((l.level.as_str(), l.format.as_str()), ("info", "json"));
    assert!(default_true());
    assert_eq!(log_format("json"), Ok(LogFormat::Json));
    assert_eq!(log_format("text"), Ok(LogFormat::Text));
    assert_eq!(
        log_format("xml"),
        Err("unknown log format `xml`; expected `json` or `text`".into())
    );
    assert!(admin_tls_present(true, None, true));
    assert!(!admin_tls_present(true, None, false));
    assert!(admin_tls_present(true, Some(true), false));
    assert!(!admin_tls_present(true, Some(false), true));
    assert!(!admin_tls_present(false, Some(true), true));
}

// ----- requests -----------------------------------------------------------------

fn text(s: &str) -> Json {
    Json::Text(s.into())
}

#[test]
fn user_commands_become_requests() {
    let r = users(&UsersCommand::List);
    assert_eq!((r.method.as_str(), r.path.as_str()), ("GET", "/v1/users"));
    assert_eq!(r.body, None);
    let r = users(&UsersCommand::Show { handle: "a b".into() });
    assert_eq!(r.path, "/v1/users/a%20b");
    let r = users(&UsersCommand::Upsert {
        handle: "alice".into(),
        flags: Some("+a".into()),
        bot: true,
        comment: None,
        hosts: vec!["*!*@h".into()],
    });
    assert_eq!((r.method.as_str(), r.path.as_str()), ("POST", "/v1/users"));
    assert_eq!(
        r.body.unwrap(),
        vec![
            ("handle".to_string(), text("alice")),
            ("is_bot".to_string(), Json::Bool(true)),
            ("hosts".to_string(), Json::Texts(vec!["*!*@h".into()])),
            ("global_flags".to_string(), text("+a")),
        ]
    );
    let r = users(&UsersCommand::Chattr {
        handle: "alice".into(),
        diff: "+a-x".into(),
    });
    assert_eq!((r.method.as_str(), r.path.as_str()), ("PATCH", "/v1/users/alice"));
    assert_eq!(r.body.unwrap(), vec![("flags_diff".to_string(), text("+a-x"))]);
    let r = users(&UsersCommand::Delete { handle: "alice".into() });
    assert_eq!(r.method, "DELETE");
}

#[test]
fn channel_commands_become_requests() {
    let r = channels(&ChannelsCommand::Show { name: "#x".into() });
    assert_eq!(r.path, "/v1/channels/%23x");
    let r = channels(&ChannelsCommand::Upsert { name: "#x".into() });
    assert_eq!(r.body.unwrap(), vec![("name".to_string(), text("#x"))]);
    assert_eq!(channels(&ChannelsCommand::List).path, "/v1/channels");
    assert_eq!(
        channels(&ChannelsCommand::Delete { name: "#x".into() }).method,
        "DELETE"
    );
    let r = chattr_channel("alice", "#x", "+o");
    assert_eq!(r.path, "/v1/channels/%23x/users/alice");
    assert_eq!(r.method, "PUT");
}

#[test]
fn chanset_sends_only_what_is_given() {
    let r = chanset(&ChansetCommand::Get { name: "#x".into() });
    assert_eq!(r.path, "/v1/channels/%23x/settings");
    let r = chanset(&ChansetCommand::Put {
        name: "#x".into(),
        flags: None,
        mode_pls: Some("nt".into()),
        mode_mns: None,
        limit: Some(5),
        no_limit: false,
        key: None,
        no_key: true,
        topic: None,
        no_topic: false,
    });
    assert_eq!(r.method, "PUT");
    assert_eq!(
        r.body.unwrap(),
        vec![
            ("mode_pls".to_string(), text("nt")),
            ("limit_prot".to_string(), Json::Number(5)),
            ("key_prot".to_string(), Json::Null),
        ]
    );
}

#[test]
fn mask_commands_become_requests() {
    let r = mask(&MaskCommand::List {
        channel: "#x".into(),
        kind: "ban".into(),
    });
    assert_eq!(r.path, "/v1/channels/%23x/masks?kind=ban");
    let r = mask(&MaskCommand::Add {
        channel: "#x".into(),
        mask: "*!*@h".into(),
        kind: "ban".into(),
        reason: None,
        expires_at: Some(9),
        sticky: false,
    });
    assert_eq!(r.path, "/v1/channels/%23x/masks");
    assert_eq!(
        r.body.unwrap(),
        vec![
            ("kind".to_string(), text("ban")),
            ("mask".to_string(), text("*!*@h")),
            ("sticky".to_string(), Json::Bool(false)),
            ("expires_at".to_string(), Json::Number(9)),
        ]
    );
    let r = mask(&MaskCommand::Remove { id: "01".into() });
    assert_eq!((r.method.as_str(), r.path.as_str()), ("DELETE", "/v1/masks/01"));
}

#[test]
fn clients_find_their_server() {
    assert_eq!(audit(50, None).path, "/v1/audit?limit=50");
    assert_eq!(audit(5, Some("@a")).path, "/v1/audit?limit=5&actor=%40a");
    let r = login("alice", "pw");
    assert_eq!((r.method.as_str(), r.path.as_str()), ("POST", "/v1/login"));
    assert_eq!(
        base_url(None, "0.0.0.0", true, 8443, true),
        "https://127.0.0.1:8443"
    );
    assert_eq!(
        base_url(None, "10.0.0.1", false, 80, false),
        "http://10.0.0.1:80"
    );
    assert_eq!(base_url(Some("http://x"), "h", false, 1, true), "http://x");
    assert_eq!(actor_name(Some("me"), Some("u"), None), "me");
    assert_eq!(actor_name(None, Some("u"), Some("v")), "cli:u");
    assert_eq!(actor_name(None, None, Some("v")), "cli:v");
    assert_eq!(actor_name(None, None, None), "cli:unknown");
    assert_eq!(client_auth(true, true), Ok(true));
    assert_eq!(client_auth(false, false), Ok(false));
    assert_eq!(client_auth(true, false), Err("--cert requires --key"));
    assert_eq!(client_auth(false, true), Err("--key requires --cert"));
}

// ----- reports ------------------------------------------------------------------

#[test]
fn observer_reports_uncertified_and_mass_ops() {
    let mut obs = OpObserver::new();
    for i in 0..5 {
        obs.record_op("#c", "n", "src", 1_000 + i);
    }
    let alerts = obs.take_alerts();
    assert_eq!(
        alerts,
        vec![Alert::MassOp {
            source: "src".into(),
            channel: "#c".into(),
            count: 5
        }]
    );
    assert!(obs.take_alerts().is_empty());
    obs.maybe_sweep(7_000);
    let alerts = obs.take_alerts();
    assert_eq!(alerts.len(), 5);
    assert!(matches!(
        &alerts[0],
        Alert::Uncertified { op, now_ms: 7_000 } if op.ts_ms == 1_000
    ));
    assert!(now_ms() > 0);
}

#[test]
fn authorities_may_have_keys_of_other_kinds() {
    let key = rcgen::KeyPair::generate_for(&rcgen::PKCS_ECDSA_P256_SHA256).unwrap();
    let mut params = rcgen::CertificateParams::default();
    params.is_ca = rcgen::IsCa::Ca(rcgen::BasicConstraints::Unconstrained);
    let cert = params.self_signed(&key).unwrap().pem();
    let node = issue_cert("n1", &cert, &key.serialize_pem()).unwrap();
    // What is issued is Ed25519 all the same.
    let drawn = rcgen::KeyPair::from_pem(&node.key.contents).unwrap();
    assert!(drawn.is_compatible(&rcgen::PKCS_ED25519));
}

#[test]
fn stamps_name_their_moment() {
    assert_eq!(stamp_at(0), "19700101T000000Z");
    assert_eq!(stamp_at(1_700_000_000), "20231114T221320Z");
}
