//! What the certificates of a mesh say, for how long, and where they are kept.

use crate::model::time;
use crate::node::pki;
use crate::node::pki::{
    CaMeta, CertPlan, Holder, Issued, KeyKind, KeyUsage, PkiError, PkiFault, Purpose, Standing,
};
use crate::text;
use vstd::prelude::*;

verus! {

/// Whether the dates of a plan are a minute before `now` and `days` days after it, as far
/// as certificates can carry them.
pub open spec fn dated(p: CertPlan, now: i64, days: int) -> bool {
    &&& now - 60 >= pki::FIRST_SECOND && now - 60 <= pki::LAST_SECOND ==> p.not_before == now - 60
    &&& now + days * 86_400 >= pki::FIRST_SECOND && now + days * 86_400 <= pki::LAST_SECOND
        ==> p.not_after == now + days * 86_400
    &&& pki::FIRST_SECOND <= p.not_before <= pki::LAST_SECOND
    &&& pki::FIRST_SECOND <= p.not_after <= pki::LAST_SECOND
}

/// The authority's certificate is for signing certificates and revocations, and counts
/// for five years.
pub proof fn authority_signs_for_five_years(now: i64, p: CertPlan)
    requires
        call_ensures(pki::ca_plan, (now,), p),
    ensures
        p.common_name@ == "Shade Botnet CA"@,
        p.organization@ == "Shade"@,
        p.dns_names@.len() == 0,
        p.standing == Standing::Authority,
        p.key_usages@.to_set() == set![
            KeyUsage::DigitalSignature,
            KeyUsage::KeyCertSign,
            KeyUsage::CrlSign,
        ],
        p.purposes@.len() == 0,
        p.names_signer,
        dated(p, now, 1825),
{
    assert(p@.dns_names.len() == p.dns_names@.len());
    assert(p.key_usages@ =~= seq![
        KeyUsage::DigitalSignature,
        KeyUsage::KeyCertSign,
        KeyUsage::CrlSign,
    ]);
    lemma_three(KeyUsage::DigitalSignature, KeyUsage::KeyCertSign, KeyUsage::CrlSign);
}

proof fn lemma_three(a: KeyUsage, b: KeyUsage, c: KeyUsage)
    ensures
        seq![a, b, c].to_set() == set![a, b, c],
{
    let s = seq![a, b, c];
    assert(s[0] == a && s[1] == b && s[2] == c);
    assert forall|x: KeyUsage| s.to_set().contains(x) <==> set![a, b, c].contains(x) by {
        if x == a {
            assert(s.contains(s[0]));
        }
        if x == b {
            assert(s.contains(s[1]));
        }
        if x == c {
            assert(s.contains(s[2]));
        }
    }
    assert(s.to_set() =~= set![a, b, c]);
}

/// A node's certificate names the node, in both places, serves it at both ends of a
/// connection, signs no other certificate, and counts for two years.
pub proof fn node_certificate_serves_both_ends(node: &str, now: i64, p: CertPlan)
    requires
        call_ensures(pki::node_plan, (node, now), p),
    ensures
        p.common_name@ == node@,
        p.organization@ == "Shade"@,
        p.dns_names@.len() == 1 && p.dns_names@[0]@ == node@,
        p.standing == Standing::Leaf,
        p.key_usages@ == seq![KeyUsage::DigitalSignature, KeyUsage::KeyEncipherment],
        p.purposes@ == seq![Purpose::ServerAuth, Purpose::ClientAuth],
        p.names_signer,
        dated(p, now, 730),
{
    assert(p@.dns_names.len() == p.dns_names@.len());
    assert(p@.dns_names[0] == p.dns_names@[0]@);
}

/// An operator's certificate names the operator, serves clients only, signs no other
/// certificate, and counts for a year.
pub proof fn operator_certificate_serves_clients(handle: &str, now: i64, p: CertPlan)
    requires
        call_ensures(pki::admin_plan, (handle, now), p),
    ensures
        p.common_name@ == handle@,
        p.organization@ == "Shade Admin"@,
        p.dns_names@.len() == 0,
        p.standing == Standing::Leaf,
        p.key_usages@ == seq![KeyUsage::DigitalSignature, KeyUsage::KeyEncipherment],
        p.purposes@ == seq![Purpose::ClientAuth],
        p.names_signer,
        dated(p, now, 365),
{
    assert(p@.dns_names.len() == p.dns_names@.len());
}

/// The years 0 and 9999 bound the dates of certificates.
pub proof fn dates_are_bounded(t: int)
    ensures
        pki::FIRST_SECOND == -62_167_219_200,
        pki::LAST_SECOND == 253_402_300_799,
        t < pki::FIRST_SECOND ==> pki::within_dates(t) == pki::FIRST_SECOND,
        t > pki::LAST_SECOND ==> pki::within_dates(t) == pki::LAST_SECOND,
        pki::FIRST_SECOND <= t <= pki::LAST_SECOND ==> pki::within_dates(t) == t,
{
}

/// Whether only the owner may read the key, and anyone the certificate, under these
/// names.
pub open spec fn kept_as(i: Issued, cert: Seq<char>, key: Seq<char>) -> bool {
    i.cert.name@ == cert && i.key.name@ == key && i.cert.mode == 0o644 && i.key.mode == 0o600
}

/// A fresh authority is kept under its own names, its key private. Its certificate is its
/// own: about it, by it, for its key and signed with its key.
pub proof fn authority_is_its_own(r: Result<Issued, PkiError>)
    requires
        call_ensures(pki::init_ca, (), r),
    ensures
        r matches Ok(i) ==> {
            let c = pki::certificate(i.cert.contents@);
            let key = pki::public_key(i.key.contents@);
            &&& kept_as(i, "botnet-ca.pem"@, "botnet-ca.key"@)
            &&& pki::key_fault(i.key.contents@) is None && pki::ca_fault(i.cert.contents@) is None
            &&& c.subject.common_name == "Shade Botnet CA"@
            &&& c.subject == c.issuer
            &&& c.public_key == key && c.signer == key
            &&& c.standing == Standing::Authority
            &&& pki::key_kind(i.key.contents@) == KeyKind::Ed25519
        },
        r matches Err(e) ==> (e@ matches PkiFault::KeyGen(h, m) && h == Holder::Authority),
{
}

/// What is issued for a node is about that node, for the key beside it, by the authority
/// and signed with the authority's key; the key is private. No node, no certificate.
pub proof fn node_gets_its_certificate(
    node: &str,
    ca: &str,
    ca_key: &str,
    r: Result<Issued, PkiError>,
)
    requires
        call_ensures(pki::issue_cert, (node, ca, ca_key), r),
    ensures
        text::trimmed(node@).len() == 0 ==> r == Err::<Issued, PkiError>(PkiError::EmptyNodeId),
        r matches Ok(i) ==> {
            let c = pki::certificate(i.cert.contents@);
            &&& text::trimmed(node@).len() > 0
            &&& kept_as(i, "node.pem"@, "node.key"@)
            &&& pki::key_fault(i.key.contents@) is None
            &&& c.subject.common_name == node@
            &&& c.dns_names == seq![node@]
            &&& c.public_key == pki::public_key(i.key.contents@)
            &&& c.issuer == pki::certificate(ca@).subject
            &&& c.signer == pki::public_key(ca_key@)
            &&& c.standing == Standing::Leaf
            &&& c.purposes.contains(Purpose::ServerAuth) && c.purposes.contains(Purpose::ClientAuth)
            &&& pki::key_kind(i.key.contents@) == KeyKind::Ed25519
        },
{
    if let Ok(i) = r {
        let now = choose|now: i64|
            time::is_signed_second(now) && pki::issue_outcome(
                r,
                #[trigger] pki::node_plan_view(node@, now),
                Holder::Node,
                ca@,
                ca_key@,
                "node.pem"@,
                "node.key"@,
            );
        let v = pki::node_plan_view(node@, now);
        assert(v.purposes[0] == Purpose::ServerAuth && v.purposes[1] == Purpose::ClientAuth);
        assert(v.purposes.contains(Purpose::ServerAuth));
        assert(v.purposes.contains(Purpose::ClientAuth));
    }
}

/// What is issued for an operator is about that operator, white space around the handle
/// aside, for the key beside it, by the authority and signed with the authority's key; the
/// key is private. An empty handle, or one that cannot name a file, gets none.
pub proof fn operator_gets_a_certificate(
    handle: &str,
    ca: &str,
    ca_key: &str,
    r: Result<Issued, PkiError>,
)
    requires
        call_ensures(pki::issue_admin_cert, (handle, ca, ca_key), r),
    ensures
        ({
            let t = text::trimmed(handle@);
            &&& t.len() == 0 ==> r == Err::<Issued, PkiError>(PkiError::EmptyHandle)
            &&& t.len() > 0 && (t.contains('/') || t.contains('\0')) ==> (r matches Err(e) && e
                matches PkiError::BadHandle(h) && h@ == t)
            &&& r matches Ok(i) ==> {
                let c = pki::certificate(i.cert.contents@);
                &&& t.len() > 0 && !t.contains('/') && !t.contains('\0')
                &&& kept_as(i, t + ".pem"@, t + ".key"@)
                &&& pki::key_fault(i.key.contents@) is None
                &&& c.subject.common_name == t
                &&& c.dns_names.len() == 0
                &&& c.public_key == pki::public_key(i.key.contents@)
                &&& c.issuer == pki::certificate(ca@).subject
                &&& c.signer == pki::public_key(ca_key@)
                &&& c.standing == Standing::Leaf
                &&& !c.purposes.contains(Purpose::ServerAuth)
                &&& pki::key_kind(i.key.contents@) == KeyKind::Ed25519
            }
        }),
{
    let t = text::trimmed(handle@);
    if let Ok(i) = r {
        let now = choose|now: i64|
            time::is_signed_second(now) && pki::issue_outcome(
                r,
                #[trigger] pki::admin_plan_view(t, now),
                Holder::Admin,
                ca@,
                ca_key@,
                t + ".pem"@,
                t + ".key"@,
            );
        let v = pki::admin_plan_view(t, now);
        assert(!v.purposes.contains(Purpose::ServerAuth));
    }
}

/// What is wrong with an authority is said: first of its key, then of its certificate.
pub proof fn unreadable_authority_issues_nothing(
    node: &str,
    ca: &str,
    ca_key: &str,
    r: Result<Issued, PkiError>,
)
    requires
        call_ensures(pki::issue_cert, (node, ca, ca_key), r),
        text::trimmed(node@).len() > 0,
    ensures
        pki::key_fault(ca_key@) matches Some(m) ==> (r matches Err(e) && e matches PkiError::CaKey(
            t,
        ) && t@ == m),
        pki::key_fault(ca_key@) is None && pki::key_kind(ca_key@) == KeyKind::Ed25519
            && pki::ca_fault(ca@) is Some ==> (r matches Err(e) && e matches PkiError::CaCert(t)
            && Some(t@) == pki::ca_fault(ca@)),
{
}

/// What is noted beside an authority: whom it is for, when it was made, for how long, and
/// with what kind of key.
pub proof fn authority_is_noted(at: i64, m: CaMeta)
    requires
        call_ensures(pki::ca_meta, (at,), m),
    ensures
        m.subject@ == "Shade Botnet CA"@,
        m.generated_at_ms == at,
        m.validity_days == 1825,
        m.algorithm@ == "Ed25519"@,
{
}

} // verus!
