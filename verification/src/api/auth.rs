//! Who is calling.
//!
//! A verified client certificate, or a bearer token, names the caller. Without
//! either, the `X-Actor` header does; production deployments require client
//! certificates, so that the header never counts there. Without any claim,
//! actions are recorded under the node's own name.

use crate::api::error::{ApiError, ApiErrorView};
use crate::crypto;
use crate::encoding;
use crate::mesh::tls;
use crate::model::auth_token::{AuthToken, AuthTokenHash, TOKEN_BYTES};
use crate::store::rows::StoredToken;
use crate::text;
use vstd::prelude::*;

verus! {

/// The name of a caller that proved it.
#[derive(Debug, Clone, PartialEq, Eq)]
pub struct VerifiedActor(pub String);

/// The name that a client certificate proves: its common name, unless that is
/// empty.
pub open spec fn actor_in(der: Seq<u8>) -> Option<Seq<char>> {
    match tls::common_name_in(der) {
        Some(n) if n.len() > 0 => Some(n),
        _ => None,
    }
}

/// The caller that a client certificate, in DER form, proves.
pub fn admin_actor(der: Option<&[u8]>) -> (r: Option<VerifiedActor>)
    ensures
        match der {
            None => r is None,
            Some(d) => match actor_in(d@) {
                Some(n) => r matches Some(a) && a.0@ == n,
                None => r is None,
            },
        },
{
    match der {
        None => None,
        Some(d) => match tls::cert_subject_cn(d) {
            Some(n) => if text::is_empty(n.as_str()) {
                None
            } else {
                Some(VerifiedActor(n))
            },
            None => None,
        },
    }
}

/// The name that a caller goes by, if any.
#[derive(Debug, Clone, PartialEq, Eq)]
pub struct ActorClaim(pub Option<String>);

impl View for ActorClaim {
    type V = Option<Seq<char>>;

    open spec fn view(&self) -> Option<Seq<char>> {
        text::opt_view(self.0)
    }
}

impl Default for ActorClaim {
    /// No claim.
    fn default() -> (c: Self)
        ensures
            c@ is None,
    {
        ActorClaim(None)
    }
}

/// The name that a claim resolves to.
pub open spec fn resolved(claim: Option<Seq<char>>, default: Seq<char>) -> Seq<char> {
    match claim {
        Some(s) => s,
        None => default,
    }
}

impl ActorClaim {
    /// The claim of a request: the verified name, else a header that is not
    /// empty.
    pub fn from_request(verified: Option<&VerifiedActor>, header: Option<&str>) -> (c: Self)
        ensures
            c@ == match verified {
                Some(v) => Some(v.0@),
                None => match header {
                    Some(h) if h@.len() > 0 => Some(h@),
                    _ => None,
                },
            },
    {
        if let Some(v) = verified {
            return ActorClaim(Some(v.0.clone()));
        }
        match header {
            Some(h) => if text::is_empty(h) {
                ActorClaim(None)
            } else {
                ActorClaim(Some(text::owned(h)))
            },
            None => ActorClaim(None),
        }
    }

    /// Whether a claim was proved.
    #[must_use]
    pub fn is_verified(verified: Option<&VerifiedActor>) -> (b: bool)
        ensures
            b == (verified is Some),
    {
        verified.is_some()
    }

    /// The name claimed, or `default`.
    #[must_use]
    pub fn resolve<'a>(&'a self, default: &'a str) -> (s: &'a str)
        ensures
            s@ == resolved(self@, default@),
    {
        match &self.0 {
            Some(s) => s.as_str(),
            None => default,
        }
    }

    /// The name claimed, or `default`, as a string of its own.
    #[must_use]
    pub fn resolve_owned(&self, default: &str) -> (s: String)
        ensures
            s@ == resolved(self@, default@),
    {
        text::owned(self.resolve(default))
    }
}

// ----- bearer tokens ------------------------------------------------------------

/// What the authorization header of a request asks for.
#[derive(Debug, Clone, Copy, PartialEq, Eq)]
pub enum Bearer {
    /// No bearer token: other means decide.
    Absent,
    /// Something that is no token.
    Malformed,
    /// A token with this hash.
    Token(AuthTokenHash),
}

/// What a [`Bearer`] says: a token by its hash.
pub enum BearerView {
    Absent,
    Malformed,
    Token(Seq<u8>),
}

impl View for Bearer {
    type V = BearerView;

    open spec fn view(&self) -> BearerView {
        match *self {
            Bearer::Absent => BearerView::Absent,
            Bearer::Malformed => BearerView::Malformed,
            Bearer::Token(h) => BearerView::Token(h.0@),
        }
    }
}

/// What an authorization header asks for: a token stands behind the word
/// `Bearer`, as text that decodes to a secret of the right length.
pub open spec fn bearer_in(header: Seq<char>) -> BearerView {
    if text::starts_with(header, "Bearer "@) {
        let t = header.skip("Bearer "@.len() as int);
        match encoding::base64_url_decoded(text::trimmed(t)) {
            Ok(secret) if secret.len() == TOKEN_BYTES => BearerView::Token(crypto::sha256(secret)),
            _ => BearerView::Malformed,
        }
    } else {
        BearerView::Absent
    }
}

/// Read the authorization header of a request.
pub fn read_bearer(header: Option<&str>) -> (b: Bearer)
    ensures
        b@ == match header {
            None => BearerView::Absent,
            Some(h) => bearer_in(h@),
        },
{
    match header {
        None => Bearer::Absent,
        Some(h) => match text::strip_prefix(h, "Bearer ") {
            None => Bearer::Absent,
            Some(t) => match AuthToken::from_wire(t) {
                Ok(token) => Bearer::Token(token.hash()),
                Err(_) => Bearer::Malformed,
            },
        },
    }
}

/// The caller that a token stands for: the row found under its hash must exist
/// and not have expired.
pub fn accept_token(row: Option<&StoredToken>, now_ms: i64) -> (r: Result<VerifiedActor, ApiError>)
    ensures
        match row {
            Some(t) if t.expires_at > now_ms => r matches Ok(a) && a.0@ == t.handle@,
            _ => r matches Err(e) && e@ == ApiErrorView::Unauthorized,
        },
{
    match row {
        Some(t) => {
            if t.is_expired(now_ms) {
                Err(ApiError::Unauthorized)
            } else {
                Ok(VerifiedActor(t.handle.clone()))
            }
        },
        None => Err(ApiError::Unauthorized),
    }
}

} // verus!
