//! Logging in: a password for a bearer token.

use crate::api::auth;
use crate::api::error::{ApiError, ApiErrorView};
use crate::api::record::{note, AuditNote, NoteView};
use crate::api::users::check_handle;
use crate::crypto;
use crate::encoding;
use crate::model::audit::{DetailView, Details, DetailsView};
use crate::model::auth_token::{AuthToken, DEFAULT_TTL_MS, TOKEN_BYTES};
use crate::model::password;
use crate::model::user::User;
use crate::store::rows::StoredToken;
use crate::text;
use vstd::prelude::*;

verus! {

/// Whether a user may log in with a password. No user, no password, a stored
/// hash that cannot be read, and a wrong password are refused alike.
pub fn check_login(user: Option<&User>, given: &str) -> (r: Result<(), ApiError>)
    ensures
        match user {
            Some(u) => match u.password_hash {
                Some(h) => if crypto::accepts(h@, given@) {
                    r is Ok
                } else {
                    r matches Err(e) && e@ == ApiErrorView::Unauthorized
                },
                None => r matches Err(e) && e@ == ApiErrorView::Unauthorized,
            },
            None => r matches Err(e) && e@ == ApiErrorView::Unauthorized,
        },
{
    match user {
        None => Err(ApiError::Unauthorized),
        Some(u) => match &u.password_hash {
            None => Err(ApiError::Unauthorized),
            Some(h) => match password::verify(given, h.as_str()) {
                Ok(true) => Ok(()),
                _ => Err(ApiError::Unauthorized),
            },
        },
    }
}

/// The handle of a login request, checked as that of a new user is.
pub fn check_login_handle(handle: &str) -> (r: Result<(), ApiError>)
    ensures
        if text::trimmed(handle@).len() == 0 {
            r matches Err(e) && e@ == ApiErrorView::BadRequest("handle must not be empty"@)
        } else {
            r is Ok
        },
{
    check_handle(handle)
}

/// What a successful login hands out and stores.
pub struct Login {
    /// The token, shown to the caller this once.
    pub token: String,
    /// Unix milliseconds.
    pub expires_at: i64,
    /// What is kept of the token.
    pub row: StoredToken,
    pub note: AuditNote,
}

/// The outcome of a login at `now` for which the secret of `token` was drawn.
pub fn issue(token: &AuthToken, handle: &str, now: i64, node_id: &str) -> (l: Login)
    requires
        now <= i64::MAX - DEFAULT_TTL_MS,
    ensures
        l.token@ == encoding::base64_url(token@),
        encoding::decodes_to(text::trimmed(l.token@), token@),
        l.expires_at == now + DEFAULT_TTL_MS,
        l.row.hash.0@ == crypto::sha256(token@),
        l.row.handle@ == handle@,
        l.row.expires_at == l.expires_at,
        l.row.created_at == now,
        l.row.origin_node@ == node_id@,
        l.note@ == (NoteView {
            action: "auth.login"@,
            target: Some(handle@),
            details: DetailsView::Fields(
                seq![("expires_at"@, DetailView::Number(l.expires_at))],
            ),
        }),
{
    let expires_at = now + DEFAULT_TTL_MS;
    Login {
        token: token.to_wire(),
        expires_at,
        row: StoredToken {
            hash: token.hash(),
            handle: text::owned(handle),
            expires_at,
            created_at: now,
            origin_node: text::owned(node_id),
        },
        note: note("auth.login", handle, Details::number("expires_at", expires_at)),
    }
}

/// The outcome of a login now, with a fresh random token.
pub fn login(handle: &str, now: i64, node_id: &str) -> (l: Login)
    requires
        now <= i64::MAX - DEFAULT_TTL_MS,
    ensures
        exists|secret: Seq<u8>| #[trigger]
            crypto::sha256(secret) == l.row.hash.0@ && secret.len() == TOKEN_BYTES && l.token@
                == encoding::base64_url(secret) && encoding::decodes_to(text::trimmed(l.token@), secret),
        l.expires_at == now + DEFAULT_TTL_MS,
        l.row.handle@ == handle@,
        l.row.expires_at == l.expires_at,
        l.row.created_at == now,
        l.row.origin_node@ == node_id@,
        l.note@ == (NoteView {
            action: "auth.login"@,
            target: Some(handle@),
            details: DetailsView::Fields(
                seq![("expires_at"@, DetailView::Number(l.expires_at))],
            ),
        }),
{
    let token = AuthToken::random();
    issue(&token, handle, now, node_id)
}

/// A token that was handed out is recognised: presented as a bearer token, it is
/// looked up under the hash that was stored.
pub proof fn issued_token_is_recognised(wire: Seq<char>, secret: Seq<u8>)
    requires
        secret.len() == TOKEN_BYTES,
        encoding::decodes_to(text::trimmed(wire), secret),
    ensures
        auth::bearer_in("Bearer "@ + wire) == auth::BearerView::Token(crypto::sha256(secret)),
{
    let p = "Bearer "@;
    let header = p + wire;
    assert(header.take(p.len() as int) =~= p);
    assert(header.skip(p.len() as int) =~= wire);
}

} // verus!
