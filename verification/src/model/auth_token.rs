//! Bearer auth tokens for the admin API.
//!
//! A token is 32 random bytes, written as URL-safe base64 on the wire and kept
//! at rest as its SHA-256 hash only.

use crate::crypto;
use crate::encoding;
use crate::text;
use vstd::prelude::*;

verus! {

/// Default token lifetime: one hour, in milliseconds.
pub const DEFAULT_TTL_MS: i64 = 3_600_000;

/// Length of the random secret in bytes.
pub const TOKEN_BYTES: usize = 32;

/// A token in plaintext form. Shown to the operator exactly once; only the
/// [`AuthTokenHash`] is kept.
#[derive(Clone)]
pub struct AuthToken {
    secret: [u8; 32],
}

impl View for AuthToken {
    type V = Seq<u8>;

    closed spec fn view(&self) -> Seq<u8> {
        self.secret@
    }
}

/// SHA-256 hash of an [`AuthToken`]'s secret.
#[derive(Debug, Clone, Copy, PartialEq, Eq, Hash)]
pub struct AuthTokenHash(pub [u8; 32]);

/// Why a wire form is no token.
#[derive(Debug, Clone, PartialEq, Eq)]
pub enum AuthTokenError {
    /// Not base64; the decoder's message.
    Decode(String),
    /// Not [`TOKEN_BYTES`] bytes.
    WrongLength,
}

impl AuthTokenError {
    /// The message of the error.
    pub fn to_string(&self) -> (s: String)
        ensures
            s@ == match *self {
                AuthTokenError::Decode(m) => "base64 decode: "@ + m@,
                AuthTokenError::WrongLength => "decoded token has wrong length"@,
            },
    {
        match self {
            AuthTokenError::Decode(m) => text::concat("base64 decode: ", m.as_str()),
            AuthTokenError::WrongLength => text::owned("decoded token has wrong length"),
        }
    }
}

impl AuthToken {
    /// A fresh random token.
    #[must_use]
    pub fn random() -> (t: Self)
        ensures
            t@.len() == TOKEN_BYTES,
    {
        AuthToken { secret: crypto::random_bytes() }
    }

    /// A token with a given secret.
    pub fn from_secret(secret: [u8; 32]) -> (t: Self)
        ensures
            t@ == secret@,
    {
        AuthToken { secret }
    }

    /// The secret bytes.
    pub fn secret(&self) -> (s: &[u8; 32])
        ensures
            s@ == self@,
    {
        &self.secret
    }

    /// The wire form: URL-safe base64 without padding. [`AuthToken::from_wire`]
    /// reads the same token back.
    #[must_use]
    pub fn to_wire(&self) -> (s: String)
        ensures
            s@ == encoding::base64_url(self@),
            encoding::decodes_to(text::trimmed(s@), self@),
            self@.len() == TOKEN_BYTES,
    {
        let s = encoding::encode_url(self.secret.as_slice());
        proof {
            encoding::url_safe_is_plain(s@);
        }
        s
    }

    /// Parse a wire-form token, ignoring white space around it. Rejects
    /// anything that does not decode to exactly [`TOKEN_BYTES`] bytes.
    pub fn from_wire(s: &str) -> (r: Result<Self, AuthTokenError>)
        ensures
            match encoding::base64_url_decoded(text::trimmed(s@)) {
                Err(m) => r matches Err(AuthTokenError::Decode(e)) && e@ == m,
                Ok(b) => if b.len() == TOKEN_BYTES {
                    r matches Ok(t) && t@ == b
                } else {
                    r matches Err(AuthTokenError::WrongLength)
                },
            },
    {
        match encoding::decode_url(text::trim(s)) {
            Err(e) => Err(AuthTokenError::Decode(e)),
            Ok(v) => {
                if v.len() != TOKEN_BYTES {
                    return Err(AuthTokenError::WrongLength);
                }
                let mut secret: [u8; 32] = [0u8; 32];
                let mut i: usize = 0;
                while i < 32
                    invariant
                        i <= 32,
                        v@.len() == 32,
                        forall|j: int| 0 <= j < i ==> secret@[j] == v@[j],
                    decreases 32 - i,
                {
                    secret[i] = v[i];
                    i = i + 1;
                }
                assert(secret@ =~= v@);
                Ok(AuthToken { secret })
            },
        }
    }

    /// SHA-256 of the secret: what is stored at rest and looked up.
    #[must_use]
    pub fn hash(&self) -> (h: AuthTokenHash)
        ensures
            h.0@ == crypto::sha256(self@),
    {
        AuthTokenHash(crypto::sha256_digest(self.secret.as_slice()))
    }
}

impl AuthTokenHash {
    /// The bytes of the hash.
    #[must_use]
    pub fn as_bytes(&self) -> (b: &[u8; 32])
        ensures
            b@ == self.0@,
    {
        &self.0
    }
}

} // verus!
