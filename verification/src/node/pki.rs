//! The mesh's certificate authority, and the certificates that it issues.
//!
//! * The authority is self-signed and valid for five years.
//! * A node's certificate carries the node's identifier as its common name and
//!   as its only alternative name, for servers and clients, for two years.
//! * An operator's certificate carries the operator's handle as its common name
//!   and no alternative name, for clients only, for one year: it never serves as
//!   a server's identity.
//!
//! All keys are Ed25519. Private keys are for their owner's eyes only.

use crate::api::auth;
use crate::mesh::tls;
use crate::model::time;
use crate::model::time::now_second;
use crate::node::cert_names;
use crate::node::cert_names::params_fit;
use crate::node::pem_text;
use crate::text;
use vstd::prelude::*;
use vstd::utf8;

verus! {

pub const CA_CERT_FILE: &'static str = "botnet-ca.pem";

pub const CA_KEY_FILE: &'static str = "botnet-ca.key";

pub const CA_META_FILE: &'static str = "ca-meta.json";

pub const NODE_CERT_FILE: &'static str = "node.pem";

pub const NODE_KEY_FILE: &'static str = "node.key";

/// File mode of what anyone may read.
pub const PUBLIC_MODE: u32 = 0o644;

/// File mode of private keys.
pub const PRIVATE_MODE: u32 = 0o600;

pub const CA_VALIDITY_DAYS: u64 = 1825;

pub const NODE_VALIDITY_DAYS: u64 = 730;

pub const ADMIN_VALIDITY_DAYS: u64 = 365;

/// Certificates are valid from a minute before they are made, so that clocks
/// that run a little late accept them.
pub const BACKDATE_SECS: u64 = 60;

/// Seconds of a day.
pub const DAY_SECS: u64 = 86_400;

/// The first second of the year 0, where certificate dates start.
pub const FIRST_SECOND: i64 = cert_names::YEAR_ZERO;

/// The last second of the year 9999, where certificate dates end.
pub const LAST_SECOND: i64 = 253_402_300_799;

// ----- what a certificate says --------------------------------------------------

/// What a certificate's key may be used for.
#[derive(Debug, Clone, Copy, PartialEq, Eq, Structural)]
pub enum KeyUsage {
    DigitalSignature,
    KeyEncipherment,
    KeyCertSign,
    CrlSign,
}

/// What a certificate is for.
#[derive(Debug, Clone, Copy, PartialEq, Eq, Structural)]
pub enum Purpose {
    ServerAuth,
    ClientAuth,
}

/// Whether a certificate may sign others.
#[derive(Debug, Clone, Copy, PartialEq, Eq, Structural)]
pub enum Standing {
    Authority,
    Leaf,
}

/// What a certificate is to say.
#[derive(Debug, Clone, PartialEq, Eq)]
pub struct CertPlan {
    pub common_name: String,
    pub organization: String,
    /// Alternative names.
    pub dns_names: Vec<String>,
    pub standing: Standing,
    pub key_usages: Vec<KeyUsage>,
    pub purposes: Vec<Purpose>,
    /// Whether it names the key that signed it.
    pub names_signer: bool,
    /// Unix seconds.
    pub not_before: i64,
    /// Unix seconds.
    pub not_after: i64,
}

/// What a [`CertPlan`] says.
pub struct PlanView {
    pub common_name: Seq<char>,
    pub organization: Seq<char>,
    pub dns_names: Seq<Seq<char>>,
    pub standing: Standing,
    pub key_usages: Seq<KeyUsage>,
    pub purposes: Seq<Purpose>,
    pub names_signer: bool,
    pub not_before: i64,
    pub not_after: i64,
}

impl View for CertPlan {
    type V = PlanView;

    open spec fn view(&self) -> PlanView {
        PlanView {
            common_name: self.common_name@,
            organization: self.organization@,
            dns_names: text::views(self.dns_names@),
            standing: self.standing,
            key_usages: self.key_usages@,
            purposes: self.purposes@,
            names_signer: self.names_signer,
            not_before: self.not_before,
            not_after: self.not_after,
        }
    }
}

/// Whom a certificate is about, or who signed it.
pub struct Subject {
    pub common_name: Seq<char>,
    pub organization: Seq<char>,
}

/// What a signed certificate says.
pub struct CertFacts {
    pub subject: Subject,
    pub dns_names: Seq<Seq<char>>,
    pub standing: Standing,
    pub key_usages: Set<KeyUsage>,
    pub purposes: Set<Purpose>,
    pub not_before: i64,
    pub not_after: i64,
    /// The key that it is for.
    pub public_key: Seq<u8>,
    pub issuer: Subject,
    /// The key that it was signed with.
    pub signer: Seq<u8>,
    /// Whether its names and dates can be written into a certificate again.
    pub rewritable: bool,
    /// Whether the texts of its subject are UTF-8.
    pub utf8: bool,
}

impl PlanView {
    /// Whom the certificate is about.
    pub open spec fn subject(self) -> Subject {
        Subject { common_name: self.common_name, organization: self.organization }
    }

    /// What a certificate says that follows this plan, for the key `public_key`,
    /// when `issuer` signs it with the key `signer`.
    pub open spec fn signed(self, public_key: Seq<u8>, issuer: Subject, signer: Seq<u8>) -> CertFacts {
        CertFacts {
            subject: self.subject(),
            dns_names: self.dns_names,
            standing: self.standing,
            key_usages: self.key_usages.to_set(),
            purposes: self.purposes.to_set(),
            not_before: self.not_before,
            not_after: self.not_after,
            public_key,
            issuer,
            signer,
            rewritable: true,
            utf8: true,
        }
    }
}

/// A second, or the nearest one that certificates can carry.
pub open spec fn within_dates(t: int) -> i64 {
    if t < FIRST_SECOND {
        FIRST_SECOND
    } else if t > LAST_SECOND {
        LAST_SECOND
    } else {
        t as i64
    }
}

/// When a certificate made at `now` starts to count.
pub open spec fn valid_from(now: i64) -> i64 {
    within_dates(now - BACKDATE_SECS)
}

/// When a certificate made at `now` for `days` days stops to count.
pub open spec fn valid_until(now: i64, days: u64) -> i64 {
    within_dates(now + days * DAY_SECS)
}

fn clamp_date(t: i128) -> (r: i64)
    ensures
        r == within_dates(t as int),
{
    if t < FIRST_SECOND as i128 {
        FIRST_SECOND
    } else if t > LAST_SECOND as i128 {
        LAST_SECOND
    } else {
        t as i64
    }
}

fn start_of(now: i64) -> (t: i64)
    ensures
        t == valid_from(now),
        FIRST_SECOND <= t <= LAST_SECOND,
{
    clamp_date(now as i128 - BACKDATE_SECS as i128)
}

fn end_of(now: i64, days: u64) -> (t: i64)
    requires
        days <= 3650,
    ensures
        t == valid_until(now, days),
        FIRST_SECOND <= t <= LAST_SECOND,
{
    let span: u64 = days * DAY_SECS;
    clamp_date(now as i128 + span as i128)
}

impl CertPlan {
    /// Whether certificates can carry the dates of the plan.
    pub open spec fn has_dates(self) -> bool {
        FIRST_SECOND <= self.not_before <= LAST_SECOND && FIRST_SECOND <= self.not_after
            <= LAST_SECOND
    }
}

/// What the authority's certificate says.
pub open spec fn ca_plan_view(now: i64) -> PlanView {
    PlanView {
        common_name: "Shade Botnet CA"@,
        organization: "Shade"@,
        dns_names: Seq::empty(),
        standing: Standing::Authority,
        key_usages: seq![KeyUsage::DigitalSignature, KeyUsage::KeyCertSign, KeyUsage::CrlSign],
        purposes: Seq::empty(),
        names_signer: true,
        not_before: valid_from(now),
        not_after: valid_until(now, CA_VALIDITY_DAYS),
    }
}

/// What a node's certificate says.
pub open spec fn node_plan_view(node_id: Seq<char>, now: i64) -> PlanView {
    PlanView {
        common_name: node_id,
        organization: "Shade"@,
        dns_names: seq![node_id],
        standing: Standing::Leaf,
        key_usages: seq![KeyUsage::DigitalSignature, KeyUsage::KeyEncipherment],
        purposes: seq![Purpose::ServerAuth, Purpose::ClientAuth],
        names_signer: true,
        not_before: valid_from(now),
        not_after: valid_until(now, NODE_VALIDITY_DAYS),
    }
}

/// What an operator's certificate says.
pub open spec fn admin_plan_view(handle: Seq<char>, now: i64) -> PlanView {
    PlanView {
        common_name: handle,
        organization: "Shade Admin"@,
        dns_names: Seq::empty(),
        standing: Standing::Leaf,
        key_usages: seq![KeyUsage::DigitalSignature, KeyUsage::KeyEncipherment],
        purposes: seq![Purpose::ClientAuth],
        names_signer: true,
        not_before: valid_from(now),
        not_after: valid_until(now, ADMIN_VALIDITY_DAYS),
    }
}

/// What the authority's certificate made at `now` says.
pub fn ca_plan(now: i64) -> (p: CertPlan)
    ensures
        p@ == ca_plan_view(now),
{
    let p = CertPlan {
        common_name: text::owned("Shade Botnet CA"),
        organization: text::owned("Shade"),
        dns_names: Vec::new(),
        standing: Standing::Authority,
        key_usages: vec![KeyUsage::DigitalSignature, KeyUsage::KeyCertSign, KeyUsage::CrlSign],
        purposes: Vec::new(),
        names_signer: true,
        not_before: start_of(now),
        not_after: end_of(now, CA_VALIDITY_DAYS),
    };
    assert(p@.dns_names =~= Seq::empty());
    p
}

/// What a node's certificate made at `now` says.
pub fn node_plan(node_id: &str, now: i64) -> (p: CertPlan)
    ensures
        p@ == node_plan_view(node_id@, now),
{
    let p = CertPlan {
        common_name: text::owned(node_id),
        organization: text::owned("Shade"),
        dns_names: vec![text::owned(node_id)],
        standing: Standing::Leaf,
        key_usages: vec![KeyUsage::DigitalSignature, KeyUsage::KeyEncipherment],
        purposes: vec![Purpose::ServerAuth, Purpose::ClientAuth],
        names_signer: true,
        not_before: start_of(now),
        not_after: end_of(now, NODE_VALIDITY_DAYS),
    };
    assert(p@.dns_names =~= seq![node_id@]);
    p
}

/// What an operator's certificate made at `now` says.
pub fn admin_plan(handle: &str, now: i64) -> (p: CertPlan)
    ensures
        p@ == admin_plan_view(handle@, now),
{
    let p = CertPlan {
        common_name: text::owned(handle),
        organization: text::owned("Shade Admin"),
        dns_names: Vec::new(),
        standing: Standing::Leaf,
        key_usages: vec![KeyUsage::DigitalSignature, KeyUsage::KeyEncipherment],
        purposes: vec![Purpose::ClientAuth],
        names_signer: true,
        not_before: start_of(now),
        not_after: end_of(now, ADMIN_VALIDITY_DAYS),
    };
    assert(p@.purposes =~= seq![Purpose::ClientAuth]);
    assert(p@.dns_names =~= Seq::empty());
    p
}

// ----- outside types and calls --------------------------------------------------

/// A key pair of the `rcgen` crate.
#[verifier::external_type_specification]
#[verifier::external_body]
pub struct ExKeyPair(rcgen::KeyPair);

/// The parameters of a certificate, of the `rcgen` crate.
#[verifier::external_type_specification]
#[verifier::external_body]
pub struct ExCertificateParams(rcgen::CertificateParams);

/// A signed certificate of the `rcgen` crate.
#[verifier::external_type_specification]
#[verifier::external_body]
pub struct ExCertificate(rcgen::Certificate);

/// Kinds of key pairs.
pub enum KeyKind {
    Ed25519,
    /// Another kind, with the private half in memory.
    Other,
    /// The private half is with a remote signer.
    Remote,
}

/// What a PEM text itself has wrong with it as a private key, if anything.
pub uninterp spec fn key_fault(pem: Seq<char>) -> Option<Seq<char>>;

/// What is wrong with a PEM text as an authority's certificate, if anything.
pub uninterp spec fn ca_fault(pem: Seq<char>) -> Option<Seq<char>>;

/// The public half of the private key in a PEM text.
pub uninterp spec fn public_key(pem: Seq<char>) -> Seq<u8>;

/// What the certificate in a PEM text says.
pub uninterp spec fn certificate(pem: Seq<char>) -> CertFacts;

/// What kind of key pair this is.
pub uninterp spec fn kind_of(key: rcgen::KeyPair) -> KeyKind;

/// What kind of private key a PEM text holds.
pub uninterp spec fn key_kind(pem: Seq<char>) -> KeyKind;

/// The public half of a key pair.
pub uninterp spec fn public_half(key: rcgen::KeyPair) -> Seq<u8>;

/// What certificate parameters hold; a name that is missing counts as empty.
pub uninterp spec fn held(params: rcgen::CertificateParams) -> PlanView;

/// What a signed certificate says; a name that is missing counts as empty.
pub uninterp spec fn said(cert: rcgen::Certificate) -> CertFacts;

/// Whether the private half of a key pair is in memory.
pub open spec fn is_local(key: rcgen::KeyPair) -> bool {
    kind_of(key) != KeyKind::Remote
}

/// Whether a key, if there is one, is in memory.
pub open spec fn stays_local(r: Result<rcgen::KeyPair, String>) -> bool {
    r matches Ok(k) ==> is_local(k)
}

/// Whether this is a reading of a key: the text has nothing wrong with it and the
/// key is the one in it, or there is an error, which is that of the text where it
/// has one. An Ed25519 key in a text with nothing wrong is read.
pub open spec fn reads_key(r: Result<rcgen::KeyPair, String>, pem: Seq<char>) -> bool {
    match r {
        Ok(k) => key_fault(pem) is None && public_half(k) == public_key(pem) && kind_of(k)
            == key_kind(pem) && is_local(k),
        Err(e) => match key_fault(pem) {
            Some(m) => e@ == m,
            None => key_kind(pem) != KeyKind::Ed25519,
        },
    }
}

/// Whether parameters that were read, if they were, are about the subject of the
/// certificate in the text, have no extras, and can be written if it can.
pub open spec fn reads_certificate(
    r: Result<rcgen::CertificateParams, String>,
    pem: Seq<char>,
) -> bool {
    r matches Ok(p) ==> held(p).subject() == certificate(pem).subject && cert_names::shape(
        p,
    ).extras == 0 && cert_names::shape(p).writable() == certificate(pem).rewritable
}

/// Whether parameters that were made, if they were, carry the names of a plan and
/// no other.
pub open spec fn carries_names(
    r: Result<rcgen::CertificateParams, String>,
    plan: PlanView,
) -> bool {
    r matches Ok(p) ==> held(p).subject() == plan.subject() && held(p).dns_names == plan.dns_names
        && held(p).names_signer == plan.names_signer && cert_names::shape(p).plain()
}

/// Whether a PEM text holds this one certificate in DER form.
pub open spec fn holds_certificate(pem: Seq<char>, der: Seq<u8>) -> bool {
    pem_text::pem_parsed(utf8::encode_utf8(pem)) == Ok::<Seq<(Seq<char>, Seq<u8>)>, Seq<char>>(
        seq![("CERTIFICATE"@, der)],
    )
}

/// Whether the names that are read in a certificate are those that it says.
pub open spec fn names_follow(names: Option<tls::CertNamesView>, facts: CertFacts) -> bool {
    names matches Some(n) && tls::domains(n.alternatives) == facts.dns_names && (facts.utf8
        && facts.subject.common_name.len() > 0 ==> n.common_name == Some(
        tls::NameTextView::Utf8(facts.subject.common_name),
    ))
}

/// Whether a PEM text holds a certificate in which the names are read that it says.
pub open spec fn shows_names(pem: Seq<char>, facts: CertFacts) -> bool {
    exists|der: Seq<u8>| #[trigger]
        holds_certificate(pem, der) && names_follow(tls::names_in(der), facts)
}

/// Whether a certificate, if there is one, is about this subject.
pub open spec fn about(r: Result<rcgen::Certificate, String>, subject: Subject) -> bool {
    r matches Ok(c) ==> said(c).subject == subject
}

/// Whether a certificate, if there is one, says this.
pub open spec fn says(r: Result<rcgen::Certificate, String>, facts: CertFacts) -> bool {
    r matches Ok(c) ==> said(c) == facts
}

/// The message of a failure, if it is one.
pub open spec fn params_failure(r: Result<rcgen::CertificateParams, String>) -> Option<Seq<char>> {
    match r {
        Ok(_) => None,
        Err(e) => Some(e@),
    }
}

/// Why the alternative names cannot stand in a certificate, if they cannot: the
/// first that is not ASCII.
pub open spec fn name_fault(names: Seq<Seq<char>>) -> Option<Seq<char>>
    decreases names.len(),
{
    if names.len() == 0 {
        None
    } else if !cert_names::is_ascii(names[0]) {
        Some("Invalid IA5String: '"@ + names[0] + "'"@)
    } else {
        name_fault(names.drop_first())
    }
}

/// `rcgen::KeyPair::generate_for` for Ed25519: a fresh random key pair in memory;
/// nothing else is claimed of it.
#[verifier::external_body]
pub(crate) fn fresh_key() -> (r: Result<rcgen::KeyPair, String>)
    ensures
        r matches Ok(k) ==> kind_of(k) == KeyKind::Ed25519,
{
    rcgen::KeyPair::generate_for(&rcgen::PKCS_ED25519).map_err(|e| e.to_string())
}

/// `rcgen::KeyPair::from_pem`: a key in memory. Which one, and the error of a text
/// that is none, are functions of the text alone. For kinds of keys other than
/// Ed25519 random bytes may be drawn, and a key that is sound is refused if the draw
/// fails; nothing is claimed of when that happens.
#[verifier::external_body]
pub(crate) fn parse_key(pem: &str) -> (r: Result<rcgen::KeyPair, String>)
    ensures
        reads_key(r, pem@),
{
    rcgen::KeyPair::from_pem(pem).map_err(|e| e.to_string())
}

/// `rcgen::CertificateParams::from_ca_cert_pem`: whether the text is an
/// authority's certificate, and the text of the error if not, are functions of
/// the text alone. The parameters have the certificate's subject, and only such
/// purposes and extensions as `rcgen` knows by name. Whether what they hold can be
/// written again is a function of the text alone, too.
#[verifier::external_body]
pub(crate) fn parse_ca(pem: &str) -> (r: Result<rcgen::CertificateParams, String>)
    ensures
        params_failure(r) == ca_fault(pem@),
        reads_certificate(r, pem@),
{
    rcgen::CertificateParams::from_ca_cert_pem(pem).map_err(|e| e.to_string())
}

/// `rcgen::KeyPair::serialize_pem`: a PEM text that holds the same key and has
/// nothing wrong with it. It panics only on a key that is with a remote signer.
#[verifier::external_body]
pub(crate) fn key_pem(key: &rcgen::KeyPair) -> (s: String)
    requires
        is_local(*key),
    ensures
        key_fault(s@) is None,
        public_key(s@) == public_half(*key),
        key_kind(s@) == kind_of(*key),
{
    key.serialize_pem()
}

/// `rcgen::Certificate::pem`: a PEM text with what the certificate says, in one
/// block. It is read again, and its names are, where that can be written again.
#[verifier::external_body]
pub(crate) fn cert_pem(cert: &rcgen::Certificate) -> (s: String)
    ensures
        said(*cert).rewritable ==> ca_fault(s@) is None && shows_names(s@, said(*cert)),
        certificate(s@) == said(*cert),
{
    cert.pem()
}

/// `rcgen::CertificateParams::default` with the subject and the alternative names
/// of a plan, and with or without the identifier of the key that signs.
/// `rcgen::Ia5String::try_from` rejects an alternative name exactly if it is not
/// ASCII, and says which. The parameters hold no names of another kind, no
/// constraints, and no purposes, extensions or revocation points. Nothing is
/// claimed of what else they hold.
#[verifier::external_body]
pub(crate) fn named_params(plan: &CertPlan) -> (r: Result<rcgen::CertificateParams, String>)
    ensures
        params_failure(r) == name_fault(plan@.dns_names),
        carries_names(r, plan@),
{
    let mut p = rcgen::CertificateParams::default();
    let cn = plan.common_name.as_str();
    p.distinguished_name.push(rcgen::DnType::CommonName, cn);
    p.distinguished_name.push(rcgen::DnType::OrganizationName, plan.organization.as_str());
    for name in plan.dns_names.iter() {
        let n = rcgen::Ia5String::try_from(name.as_str()).map_err(|e| e.to_string())?;
        p.subject_alt_names.push(rcgen::SanType::DnsName(n));
    }
    p.use_authority_key_identifier_extension = plan.names_signer;
    Ok(p)
}

/// Set standing, key usages and purposes of `rcgen::CertificateParams` to those
/// of a plan, and nothing else.
#[verifier::external_body]
pub(crate) fn set_usages(p: &mut rcgen::CertificateParams, plan: &CertPlan)
    ensures
        held(*final(p)) == (PlanView {
            standing: plan@.standing,
            key_usages: plan@.key_usages,
            purposes: plan@.purposes,
            ..held(*old(p))
        }),
        cert_names::shape(*old(p)).extras == 0 ==> cert_names::shape(*final(p))
            == cert_names::shape(*old(p)),
{
    p.is_ca = match plan.standing {
        Standing::Authority => rcgen::IsCa::Ca(rcgen::BasicConstraints::Unconstrained),
        Standing::Leaf => rcgen::IsCa::NoCa,
    };
    p.key_usages = plan.key_usages.iter().map(|u| match u {
        KeyUsage::DigitalSignature => rcgen::KeyUsagePurpose::DigitalSignature,
        KeyUsage::KeyEncipherment => rcgen::KeyUsagePurpose::KeyEncipherment,
        KeyUsage::KeyCertSign => rcgen::KeyUsagePurpose::KeyCertSign,
        KeyUsage::CrlSign => rcgen::KeyUsagePurpose::CrlSign,
    }).collect();
    p.extended_key_usages = plan.purposes.iter().map(|u| match u {
        Purpose::ServerAuth => rcgen::ExtendedKeyUsagePurpose::ServerAuth,
        Purpose::ClientAuth => rcgen::ExtendedKeyUsagePurpose::ClientAuth,
    }).collect();
}

/// Seconds since the start of the year 0.
fn since_year_zero(t: i64) -> (n: u64)
    requires
        FIRST_SECOND <= t <= LAST_SECOND,
    ensures
        n == t - FIRST_SECOND,
{
    (t - FIRST_SECOND) as u64
}

/// Set the dates of `rcgen::CertificateParams` to so many seconds after the start of
/// the year 0, which `rcgen::date_time_ymd` gives in universal time, and nothing else.
/// The addition panics only beyond the year 9999.
#[verifier::external_body]
pub(crate) fn set_dates(p: &mut rcgen::CertificateParams, from: u64, until: u64)
    requires
        from <= LAST_SECOND - FIRST_SECOND,
        until <= LAST_SECOND - FIRST_SECOND,
    ensures
        held(*final(p)) == (PlanView {
            not_before: (FIRST_SECOND + from) as i64,
            not_after: (FIRST_SECOND + until) as i64,
            ..held(*old(p))
        }),
        cert_names::shape(*final(p)) == (cert_names::Shape {
            not_before: cert_names::Moment { unix: (FIRST_SECOND + from) as i64, offset: 0 },
            not_after: cert_names::Moment { unix: (FIRST_SECOND + until) as i64, offset: 0 },
            ..cert_names::shape(*old(p))
        }),
{
    let start = rcgen::date_time_ymd(0, 1, 1);
    p.not_before = start + std::time::Duration::from_secs(from);
    p.not_after = start + std::time::Duration::from_secs(until);
}

/// `rcgen::CertificateParams::self_signed`: a certificate of what the parameters
/// hold, for the key that signs it. That it names the signing key keeps `rcgen`
/// from leaving out its extensions. It panics only on parameters that cannot be
/// written. With an Ed25519 key it succeeds; nothing is claimed of when signing with
/// another key fails.
#[verifier::external_body]
pub(crate) fn self_sign(p: rcgen::CertificateParams, key: &rcgen::KeyPair) -> (r: Result<
    rcgen::Certificate,
    String,
>)
    requires
        cert_names::shape(p).writable(),
        is_local(*key),
    ensures
        held(p).names_signer && cert_names::shape(p).plain() ==> says(
            r,
            held(p).signed(public_half(*key), held(p).subject(), public_half(*key)),
        ),
        about(r, held(p).subject()),
        kind_of(*key) == KeyKind::Ed25519 ==> r is Ok,
{
    p.self_signed(key).map_err(|e| e.to_string())
}

/// `rcgen::CertificateParams::signed_by`: a certificate of what the parameters
/// hold, for `key`, issued by the subject of `ca` and signed with `ca_key`. That
/// it names the signing key keeps `rcgen` from leaving out its extensions. It
/// panics only on parameters that cannot be written; what `ca` holds was written
/// before. It succeeds if `ca_key` is Ed25519; nothing is claimed of when signing
/// with another key fails.
#[verifier::external_body]
pub(crate) fn sign(
    p: rcgen::CertificateParams,
    key: &rcgen::KeyPair,
    ca: &rcgen::Certificate,
    ca_key: &rcgen::KeyPair,
) -> (r: Result<rcgen::Certificate, String>)
    requires
        cert_names::shape(p).writable(),
        is_local(*key),
        is_local(*ca_key),
    ensures
        held(p).names_signer && cert_names::shape(p).plain() ==> says(
            r,
            held(p).signed(public_half(*key), said(*ca).subject, public_half(*ca_key)),
        ),
        kind_of(*ca_key) == KeyKind::Ed25519 ==> r is Ok,
{
    p.signed_by(key, ca, ca_key).map_err(|e| e.to_string())
}

// ----- issuing ------------------------------------------------------------------

/// Whom a certificate is for.
#[derive(Debug, Clone, Copy, PartialEq, Eq, Structural)]
pub enum Holder {
    /// The authority itself.
    Authority,
    /// A node.
    Node,
    /// An operator.
    Admin,
}

/// Why no certificate was issued.
#[derive(Debug, Clone, PartialEq, Eq)]
pub enum PkiError {
    /// No identifier for the node.
    EmptyNodeId,
    /// No handle for the operator.
    EmptyHandle,
    /// A handle that cannot name a file.
    BadHandle(String),
    /// The authority's key cannot be read.
    CaKey(String),
    /// The authority's certificate cannot be read.
    CaCert(String),
    /// The authority's certificate holds what no certificate can be made with.
    CaUnfit,
    /// The authority's certificate and key could not be joined.
    Bind(String),
    /// No key could be made.
    KeyGen(Holder, String),
    /// The identifier cannot stand in a certificate.
    Params(String),
    /// Signing failed.
    Sign(Holder, String),
}

/// What a [`PkiError`] says.
pub enum PkiFault {
    EmptyNodeId,
    EmptyHandle,
    BadHandle(Seq<char>),
    CaKey(Seq<char>),
    CaCert(Seq<char>),
    CaUnfit,
    Bind(Seq<char>),
    KeyGen(Holder, Seq<char>),
    Params(Seq<char>),
    Sign(Holder, Seq<char>),
}

impl View for PkiError {
    type V = PkiFault;

    open spec fn view(&self) -> PkiFault {
        match *self {
            PkiError::EmptyNodeId => PkiFault::EmptyNodeId,
            PkiError::EmptyHandle => PkiFault::EmptyHandle,
            PkiError::BadHandle(h) => PkiFault::BadHandle(h@),
            PkiError::CaKey(m) => PkiFault::CaKey(m@),
            PkiError::CaCert(m) => PkiFault::CaCert(m@),
            PkiError::CaUnfit => PkiFault::CaUnfit,
            PkiError::Bind(m) => PkiFault::Bind(m@),
            PkiError::KeyGen(h, m) => PkiFault::KeyGen(h, m@),
            PkiError::Params(m) => PkiFault::Params(m@),
            PkiError::Sign(h, m) => PkiFault::Sign(h, m@),
        }
    }
}

impl PkiFault {
    /// The message of the error.
    pub open spec fn message(self) -> Seq<char> {
        match self {
            PkiFault::EmptyNodeId => "--node-id must not be empty"@,
            PkiFault::EmptyHandle => "--handle must not be empty"@,
            PkiFault::BadHandle(h) => "--handle `"@ + h
                + "` contains characters not allowed in a filename"@,
            PkiFault::CaKey(m) => "parsing CA private key: "@ + m,
            PkiFault::CaCert(m) => "parsing CA certificate (enable rcgen 'x509-parser' feature): "@
                + m,
            PkiFault::CaUnfit =>
                "re-binding CA cert to its key pair: it holds a name or date that cannot be written"@,
            PkiFault::Bind(m) => "re-binding CA cert to its key pair: "@ + m,
            PkiFault::KeyGen(Holder::Authority, m) => "generating CA Ed25519 key pair: "@ + m,
            PkiFault::KeyGen(Holder::Node, m) => "generating node Ed25519 key pair: "@ + m,
            PkiFault::KeyGen(Holder::Admin, m) => "generating admin Ed25519 key pair: "@ + m,
            PkiFault::Params(m) => "init node cert params: "@ + m,
            PkiFault::Sign(Holder::Authority, m) => "self-signing the CA: "@ + m,
            PkiFault::Sign(Holder::Node, m) => "signing node cert with CA: "@ + m,
            PkiFault::Sign(Holder::Admin, m) => "signing admin client cert with CA: "@ + m,
        }
    }
}

impl PkiError {
    /// The message of the error.
    pub fn to_string(&self) -> (s: String)
        ensures
            s@ == self@.message(),
    {
        match self {
            PkiError::EmptyNodeId => text::owned("--node-id must not be empty"),
            PkiError::EmptyHandle => text::owned("--handle must not be empty"),
            PkiError::BadHandle(h) => {
                let a = text::concat("--handle `", h.as_str());
                text::concat(a.as_str(), "` contains characters not allowed in a filename")
            },
            PkiError::CaKey(m) => text::concat("parsing CA private key: ", m.as_str()),
            PkiError::CaCert(m) => text::concat(
                "parsing CA certificate (enable rcgen 'x509-parser' feature): ",
                m.as_str(),
            ),
            PkiError::CaUnfit => text::owned(
                "re-binding CA cert to its key pair: it holds a name or date that cannot be written",
            ),
            PkiError::Bind(m) => text::concat("re-binding CA cert to its key pair: ", m.as_str()),
            PkiError::KeyGen(h, m) => match h {
                Holder::Authority => text::concat("generating CA Ed25519 key pair: ", m.as_str()),
                Holder::Node => text::concat("generating node Ed25519 key pair: ", m.as_str()),
                Holder::Admin => text::concat("generating admin Ed25519 key pair: ", m.as_str()),
            },
            PkiError::Params(m) => text::concat("init node cert params: ", m.as_str()),
            PkiError::Sign(h, m) => match h {
                Holder::Authority => text::concat("self-signing the CA: ", m.as_str()),
                Holder::Node => text::concat("signing node cert with CA: ", m.as_str()),
                Holder::Admin => text::concat("signing admin client cert with CA: ", m.as_str()),
            },
        }
    }
}

/// A file to write.
#[derive(Debug, Clone, PartialEq, Eq)]
pub struct KeyFile {
    pub name: String,
    pub contents: String,
    pub mode: u32,
}

/// A certificate and its private key, to be written.
#[derive(Debug, Clone, PartialEq, Eq)]
pub struct Issued {
    pub cert: KeyFile,
    pub key: KeyFile,
}

/// Whether the files carry these names, and modes that keep the key private.
pub open spec fn files_named(i: Issued, cert: Seq<char>, key: Seq<char>) -> bool {
    &&& i.cert.name@ == cert
    &&& i.cert.mode == PUBLIC_MODE
    &&& i.key.name@ == key
    &&& i.key.mode == PRIVATE_MODE
}

fn issued(cert: String, cert_name: &str, key: String, key_name: &str) -> (i: Issued)
    ensures
        files_named(i, cert_name@, key_name@),
        i.cert.contents == cert,
        i.key.contents == key,
{
    Issued {
        cert: KeyFile { name: text::owned(cert_name), contents: cert, mode: PUBLIC_MODE },
        key: KeyFile { name: text::owned(key_name), contents: key, mode: PRIVATE_MODE },
    }
}

fn params_for(plan: &CertPlan) -> (r: Result<rcgen::CertificateParams, PkiError>)
    requires
        plan.has_dates(),
    ensures
        match name_fault(plan@.dns_names) {
            Some(m) => r matches Err(e) && e@ == PkiFault::Params(m),
            None => r matches Ok(p) && held(p) == plan@ && cert_names::shape(p).plain()
                && cert_names::shape(p).writable(),
        },
{
    match named_params(plan) {
        Err(m) => Err(PkiError::Params(m)),
        Ok(mut p) => {
            set_usages(&mut p, plan);
            set_dates(&mut p, since_year_zero(plan.not_before), since_year_zero(plan.not_after));
            Ok(p)
        },
    }
}

/// The files of a certificate and its key, for each outcome of signing.
pub fn sealed(
    signed: Result<rcgen::Certificate, String>,
    key: &rcgen::KeyPair,
    holder: Holder,
    cert_name: &str,
    key_name: &str,
) -> (r: Result<Issued, PkiError>)
    requires
        is_local(*key),
    ensures
        match signed {
            Ok(c) => r matches Ok(i) && files_named(i, cert_name@, key_name@) && certificate(
                i.cert.contents@,
            ) == said(c) && (said(c).rewritable ==> ca_fault(i.cert.contents@) is None
                && shows_names(i.cert.contents@, said(c)))
                && key_fault(i.key.contents@) is None && public_key(i.key.contents@)
                == public_half(*key) && key_kind(i.key.contents@) == kind_of(*key),
            Err(m) => r matches Err(e) && e@ == PkiFault::Sign(holder, m@),
        },
{
    match signed {
        Err(m) => Err(PkiError::Sign(holder, m)),
        Ok(c) => Ok(issued(cert_pem(&c), cert_name, key_pem(key), key_name)),
    }
}

/// Whether this is a fresh authority made at `now`: signed by itself, with its
/// own key beside it, and fit to issue certificates with.
pub open spec fn is_authority(i: Issued, now: i64) -> bool {
    let key = public_key(i.key.contents@);
    &&& authority_reads(i.cert.contents@, i.key.contents@)
    &&& certificate(i.cert.contents@) == ca_plan_view(now).signed(
        key,
        ca_plan_view(now).subject(),
        key,
    )
}

/// Whether this is a certificate that follows the plan, with its own key beside
/// it, signed by the authority in the two PEM texts.
pub open spec fn is_issued(
    i: Issued,
    plan: PlanView,
    ca_pem: Seq<char>,
    ca_key_pem: Seq<char>,
) -> bool {
    &&& authority_reads(i.cert.contents@, i.key.contents@)
    &&& shows_names(i.cert.contents@, certificate(i.cert.contents@))
    &&& certificate(i.cert.contents@) == plan.signed(
        public_key(i.key.contents@),
        certificate(ca_pem).subject,
        public_key(ca_key_pem),
    )
}

/// Make a self-signed authority at `now` with the key that was drawn, if one was.
pub fn authority_with(drawn: Result<rcgen::KeyPair, String>, now: i64) -> (r: Result<
    Issued,
    PkiError,
>)
    requires
        stays_local(drawn),
    ensures
        match drawn {
            Err(m) => r matches Err(e) && e@ == PkiFault::KeyGen(Holder::Authority, m@),
            Ok(k) => match r {
                Ok(i) => files_named(i, "botnet-ca.pem"@, "botnet-ca.key"@) && is_authority(i, now)
                    && public_key(i.key.contents@) == public_half(k) && key_kind(i.key.contents@)
                    == kind_of(k),
                Err(e) => kind_of(k) != KeyKind::Ed25519 && (e@ matches PkiFault::Sign(h, _) && h
                    == Holder::Authority),
            },
        },
{
    let key = match drawn {
        Ok(k) => k,
        Err(m) => {
            return Err(PkiError::KeyGen(Holder::Authority, m));
        },
    };
    let plan = ca_plan(now);
    match params_for(&plan) {
        Err(e) => Err(e),
        Ok(params) => {
            let signed = self_sign(params, &key);
            sealed(signed, &key, Holder::Authority, CA_CERT_FILE, CA_KEY_FILE)
        },
    }
}

/// Make a fresh self-signed authority: its certificate and key.
pub fn init_ca() -> (r: Result<Issued, PkiError>)
    ensures
        r matches Ok(i) ==> files_named(i, "botnet-ca.pem"@, "botnet-ca.key"@),
        r matches Ok(i) ==> exists|now: i64|
            time::is_signed_second(now) && #[trigger] is_authority(i, now),
        r matches Ok(i) ==> key_kind(i.key.contents@) == KeyKind::Ed25519,
        r matches Err(e) ==> (e@ matches PkiFault::KeyGen(h, _) && h == Holder::Authority),
{
    let drawn = fresh_key();
    let now = now_second();
    let r = authority_with(drawn, now);
    assert(r matches Ok(j) ==> is_authority(j, now));
    r
}

/// What is noted beside a new authority.
#[derive(Debug, Clone, PartialEq, Eq)]
pub struct CaMeta {
    pub subject: String,
    pub generated_at_ms: i64,
    pub validity_days: u64,
    pub algorithm: String,
}

/// What is noted beside an authority made at `generated_at_ms`.
pub fn ca_meta(generated_at_ms: i64) -> (m: CaMeta)
    ensures
        m.subject@ == "Shade Botnet CA"@,
        m.generated_at_ms == generated_at_ms,
        m.validity_days == CA_VALIDITY_DAYS,
        m.algorithm@ == "Ed25519"@,
{
    CaMeta {
        subject: text::owned("Shade Botnet CA"),
        generated_at_ms,
        validity_days: CA_VALIDITY_DAYS,
        algorithm: text::owned("Ed25519"),
    }
}

/// Sign what `plan` says, for the key that was drawn, if one was, with the
/// authority `ca` and its key.
pub fn issue_with(
    drawn: Result<rcgen::KeyPair, String>,
    plan: &CertPlan,
    holder: Holder,
    ca: &rcgen::Certificate,
    ca_key: &rcgen::KeyPair,
    cert_name: &str,
    key_name: &str,
) -> (r: Result<Issued, PkiError>)
    requires
        plan.has_dates(),
        plan.names_signer,
        stays_local(drawn),
        is_local(*ca_key),
    ensures
        match drawn {
            Err(m) => r matches Err(e) && e@ == PkiFault::KeyGen(holder, m@),
            Ok(k) => match name_fault(plan@.dns_names) {
                Some(m) => r matches Err(e) && e@ == PkiFault::Params(m),
                None => match r {
                    Ok(i) => files_named(i, cert_name@, key_name@) && certificate(i.cert.contents@)
                        == plan@.signed(public_half(k), said(*ca).subject, public_half(*ca_key))
                        && shows_names(i.cert.contents@, certificate(i.cert.contents@))
                        && ca_fault(i.cert.contents@) is None && key_fault(i.key.contents@) is None
                        && public_key(i.key.contents@) == public_half(k) && key_kind(
                        i.key.contents@,
                    ) == kind_of(k),
                    Err(e) => kind_of(*ca_key) != KeyKind::Ed25519 && (e@ matches PkiFault::Sign(h, _)
                        && h == holder),
                },
            },
        },
{
    let key = match drawn {
        Ok(k) => k,
        Err(m) => {
            return Err(PkiError::KeyGen(holder, m));
        },
    };
    match params_for(plan) {
        Err(e) => Err(e),
        Ok(params) => {
            let signed = sign(params, &key, ca, ca_key);
            sealed(signed, &key, holder, cert_name, key_name)
        },
    }
}

/// Sign what `plan` says, for a fresh key, with the authority in the two PEM
/// texts.
fn issue(
    plan: &CertPlan,
    holder: Holder,
    ca_pem: &str,
    ca_key_pem: &str,
    cert_name: &str,
    key_name: &str,
) -> (r: Result<Issued, PkiError>)
    requires
        plan.has_dates(),
        plan.names_signer,
    ensures
        issue_outcome(r, plan@, holder, ca_pem@, ca_key_pem@, cert_name@, key_name@),
{
    let ca_key = match parse_key(ca_key_pem) {
        Ok(k) => k,
        Err(e) => {
            return Err(PkiError::CaKey(e));
        },
    };
    let ca_params = match parse_ca(ca_pem) {
        Ok(p) => p,
        Err(e) => {
            return Err(PkiError::CaCert(e));
        },
    };
    if !params_fit(&ca_params) {
        return Err(PkiError::CaUnfit);
    }
    let ca = match self_sign(ca_params, &ca_key) {
        Ok(c) => c,
        Err(e) => {
            return Err(PkiError::Bind(e));
        },
    };
    issue_with(fresh_key(), plan, holder, &ca, &ca_key, cert_name, key_name)
}

/// Whether the two texts of an authority can be read.
pub open spec fn authority_reads(ca_pem: Seq<char>, ca_key_pem: Seq<char>) -> bool {
    key_fault(ca_key_pem) is None && ca_fault(ca_pem) is None
}

/// What is wrong with the two texts of an authority, if anything: the key is read
/// first, then the certificate.
pub open spec fn authority_fault(ca_pem: Seq<char>, ca_key_pem: Seq<char>) -> Option<PkiFault> {
    match key_fault(ca_key_pem) {
        Some(m) => Some(PkiFault::CaKey(m)),
        None => match ca_fault(ca_pem) {
            Some(m) => Some(PkiFault::CaCert(m)),
            None => if certificate(ca_pem).rewritable {
                None
            } else {
                Some(PkiFault::CaUnfit)
            },
        },
    }
}

/// Whether this is what issuing comes to. What is wrong with the authority comes
/// first. Then, under an Ed25519 authority, only drawing the key can fail for a name
/// that can stand in a certificate; any other name is never signed. A sound authority
/// key of another kind may be refused, or fail to sign.
pub open spec fn issue_outcome(
    r: Result<Issued, PkiError>,
    plan: PlanView,
    holder: Holder,
    ca_pem: Seq<char>,
    ca_key_pem: Seq<char>,
    cert_name: Seq<char>,
    key_name: Seq<char>,
) -> bool {
    ||| r matches Err(e) && e@ is CaKey && key_fault(ca_key_pem) is None && key_kind(ca_key_pem)
        != KeyKind::Ed25519
    ||| match authority_fault(ca_pem, ca_key_pem) {
        Some(f) => r matches Err(e) && e@ == f,
        None => match r {
            Ok(i) => files_named(i, cert_name, key_name) && name_fault(plan.dns_names) is None
                && is_issued(i, plan, ca_pem, ca_key_pem) && key_kind(i.key.contents@)
                == KeyKind::Ed25519,
            Err(e) => match e@ {
                PkiFault::Bind(_) => key_kind(ca_key_pem) != KeyKind::Ed25519,
                PkiFault::KeyGen(h, _) => h == holder,
                PkiFault::Params(m) => name_fault(plan.dns_names) == Some(m),
                PkiFault::Sign(h, _) => h == holder && name_fault(plan.dns_names) is None
                    && key_kind(ca_key_pem) != KeyKind::Ed25519,
                _ => false,
            },
        },
    }
}

/// Issue a node's certificate, signed by the authority in the two PEM texts. Its
/// common name and only alternative name are `node_id`, so that the handshake
/// between nodes binds the one to the other.
pub fn issue_cert(node_id: &str, ca_pem: &str, ca_key_pem: &str) -> (r: Result<Issued, PkiError>)
    ensures
        text::trimmed(node_id@).len() == 0 ==> (r matches Err(e) && e@ == PkiFault::EmptyNodeId),
        text::trimmed(node_id@).len() > 0 ==> exists|now: i64|
            time::is_signed_second(now) && issue_outcome(
                r,
                #[trigger] node_plan_view(node_id@, now),
                Holder::Node,
                ca_pem@,
                ca_key_pem@,
                "node.pem"@,
                "node.key"@,
            ),
{
    if text::is_empty(text::trim(node_id)) {
        return Err(PkiError::EmptyNodeId);
    }
    let now = now_second();
    let plan = node_plan(node_id, now);
    let r = issue(&plan, Holder::Node, ca_pem, ca_key_pem, NODE_CERT_FILE, NODE_KEY_FILE);
    assert(plan@ == node_plan_view(node_id@, now));
    r
}

/// Whether a handle can name a file.
pub open spec fn names_file(handle: Seq<char>) -> bool {
    !handle.contains('/') && !handle.contains('\0')
}

/// Whether a certificate can be issued for an operator, and under which name.
pub fn check_admin_handle(handle: &str) -> (r: Result<&str, PkiError>)
    ensures
        ({
            let t = text::trimmed(handle@);
            if t.len() == 0 {
                r matches Err(e) && e@ == PkiFault::EmptyHandle
            } else if !names_file(t) {
                r matches Err(e) && e@ == PkiFault::BadHandle(t)
            } else {
                r matches Ok(h) && h@ == t
            }
        }),
{
    let trimmed = text::trim(handle);
    if text::is_empty(trimmed) {
        return Err(PkiError::EmptyHandle);
    }
    proof {
        text::lemma_position(trimmed@, '/');
        text::lemma_position(trimmed@, '\0');
    }
    let n = trimmed.unicode_len();
    if text::find_char(trimmed, '/') < n || text::find_char(trimmed, '\0') < n {
        return Err(PkiError::BadHandle(text::owned(trimmed)));
    }
    Ok(trimmed)
}

/// Issue an operator's certificate, signed by the authority in the two PEM texts.
/// The handle, white space around it aside, is its common name and names its
/// files.
pub fn issue_admin_cert(handle: &str, ca_pem: &str, ca_key_pem: &str) -> (r: Result<
    Issued,
    PkiError,
>)
    ensures
        ({
            let t = text::trimmed(handle@);
            if t.len() == 0 {
                r matches Err(e) && e@ == PkiFault::EmptyHandle
            } else if !names_file(t) {
                r matches Err(e) && e@ == PkiFault::BadHandle(t)
            } else {
                exists|now: i64|
                    time::is_signed_second(now) && issue_outcome(
                        r,
                        #[trigger] admin_plan_view(t, now),
                        Holder::Admin,
                        ca_pem@,
                        ca_key_pem@,
                        t + ".pem"@,
                        t + ".key"@,
                    )
            }
        }),
{
    let trimmed = match check_admin_handle(handle) {
        Ok(t) => t,
        Err(e) => {
            return Err(e);
        },
    };
    let now = now_second();
    let plan = admin_plan(trimmed, now);
    let cert_name = text::concat(trimmed, ".pem");
    let key_name = text::concat(trimmed, ".key");
    let r = issue(
        &plan,
        Holder::Admin,
        ca_pem,
        ca_key_pem,
        cert_name.as_str(),
        key_name.as_str(),
    );
    assert(plan@ == admin_plan_view(trimmed@, now));
    r
}

// ----- laws ------------------------------------------------------------------

/// A node's certificate carries its identifier as common name and as its only
/// alternative name.
pub proof fn node_certs_carry_the_node_id(node_id: Seq<char>, now: i64)
    ensures
        node_plan_view(node_id, now).common_name == node_id,
        node_plan_view(node_id, now).dns_names == seq![node_id],
{
}

/// Two readings of a PEM text with one certificate agree.
proof fn lemma_one_certificate(pem: Seq<char>, a: Seq<u8>, b: Seq<u8>)
    requires
        holds_certificate(pem, a),
        holds_certificate(pem, b),
    ensures
        a == b,
{
    assert(seq![("CERTIFICATE"@, a)][0] == seq![("CERTIFICATE"@, b)][0]);
}

/// A node that shows the certificate that was issued for it is known by its
/// identifier.
pub proof fn node_certs_identify_their_node(
    i: Issued,
    node_id: Seq<char>,
    now: i64,
    ca_pem: Seq<char>,
    ca_key_pem: Seq<char>,
    der: Seq<u8>,
)
    requires
        is_issued(i, node_plan_view(node_id, now), ca_pem, ca_key_pem),
        holds_certificate(i.cert.contents@, der),
    ensures
        tls::node_in(der) == Some(node_id),
{
    let facts = certificate(i.cert.contents@);
    let read = choose|d: Seq<u8>| #[trigger]
        holds_certificate(i.cert.contents@, d) && names_follow(tls::names_in(d), facts);
    lemma_one_certificate(i.cert.contents@, read, der);
}

/// An operator who shows the certificate that was issued to them acts under their
/// handle.
pub proof fn admin_certs_name_their_operator(
    i: Issued,
    handle: Seq<char>,
    now: i64,
    ca_pem: Seq<char>,
    ca_key_pem: Seq<char>,
    der: Seq<u8>,
)
    requires
        handle.len() > 0,
        is_issued(i, admin_plan_view(handle, now), ca_pem, ca_key_pem),
        holds_certificate(i.cert.contents@, der),
    ensures
        auth::actor_in(der) == Some(handle),
{
    let facts = certificate(i.cert.contents@);
    let read = choose|d: Seq<u8>| #[trigger]
        holds_certificate(i.cert.contents@, d) && names_follow(tls::names_in(d), facts);
    lemma_one_certificate(i.cert.contents@, read, der);
}

/// An operator's certificate never serves as a server's identity.
pub proof fn admin_certs_are_for_clients(handle: Seq<char>, now: i64)
    ensures
        admin_plan_view(handle, now).dns_names.len() == 0,
        !admin_plan_view(handle, now).purposes.contains(Purpose::ServerAuth),
        admin_plan_view(handle, now).standing == Standing::Leaf,
{
}

/// A fresh authority has no fault: under it, a certificate is issued unless no key
/// could be drawn or the name cannot stand in a certificate.
pub proof fn fresh_authorities_are_fit(
    ca: Issued,
    made: i64,
    r: Result<Issued, PkiError>,
    plan: PlanView,
    holder: Holder,
    cert_name: Seq<char>,
    key_name: Seq<char>,
)
    requires
        is_authority(ca, made),
        key_kind(ca.key.contents@) == KeyKind::Ed25519,
        issue_outcome(
            r,
            plan,
            holder,
            ca.cert.contents@,
            ca.key.contents@,
            cert_name,
            key_name,
        ),
    ensures
        authority_fault(ca.cert.contents@, ca.key.contents@) is None,
        r matches Err(e) ==> match e@ {
            PkiFault::KeyGen(h, _) => h == holder,
            PkiFault::Params(m) => name_fault(plan.dns_names) == Some(m),
            _ => false,
        },
{
}

/// A node's certificate is issued for ASCII identifiers only, and the error for
/// any other names the identifier.
pub proof fn node_ids_are_ascii(node_id: Seq<char>, now: i64)
    ensures
        name_fault(node_plan_view(node_id, now).dns_names) == (if cert_names::is_ascii(node_id) {
            None
        } else {
            Some("Invalid IA5String: '"@ + node_id + "'"@)
        }),
{
    let names = node_plan_view(node_id, now).dns_names;
    assert(names.drop_first().len() == 0);
    assert(name_fault(names.drop_first()) is None);
}

/// What is issued under a fresh authority is signed with the authority's key, and
/// names the authority as its issuer.
pub proof fn issued_certs_lead_to_their_authority(ca: Issued, made: i64, i: Issued, plan: PlanView)
    requires
        is_authority(ca, made),
        is_issued(i, plan, ca.cert.contents@, ca.key.contents@),
    ensures
        certificate(i.cert.contents@).issuer == certificate(ca.cert.contents@).subject,
        certificate(i.cert.contents@).signer == certificate(ca.cert.contents@).public_key,
        certificate(ca.cert.contents@).standing == Standing::Authority,
{
}

/// Only the authority's certificate may sign others, and every certificate made
/// between the years 1 and 9990 counts for a time that spans the moment it was made.
pub proof fn only_the_authority_signs(node_id: Seq<char>, handle: Seq<char>, now: i64)
    requires
        FIRST_SECOND + BACKDATE_SECS <= now,
        now + 3650 * DAY_SECS <= LAST_SECOND,
    ensures
        ca_plan_view(now).standing == Standing::Authority,
        ca_plan_view(now).key_usages.contains(KeyUsage::KeyCertSign),
        !node_plan_view(node_id, now).key_usages.contains(KeyUsage::KeyCertSign),
        !admin_plan_view(handle, now).key_usages.contains(KeyUsage::KeyCertSign),
        ca_plan_view(now).not_before <= now < ca_plan_view(now).not_after,
        node_plan_view(node_id, now).not_before <= now < node_plan_view(node_id, now).not_after,
        admin_plan_view(handle, now).not_before <= now < admin_plan_view(handle, now).not_after,
{
    assert(ca_plan_view(now).key_usages[1] == KeyUsage::KeyCertSign);
}

} // verus!
