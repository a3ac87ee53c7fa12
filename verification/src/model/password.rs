//! Argon2id password hashing for the admin login flow.
//!
//! A stored password is the PHC string that [`hash`] produces. [`verify`] is
//! `Ok(true)` only on a clean match against that string; a wrong password is
//! `Ok(false)`, and a malformed string an error.

use crate::crypto;
use crate::text;
use vstd::prelude::*;

verus! {

/// Memory cost in KiB (64 MiB).
pub const MEMORY_KIB: u32 = 65_536;

/// Number of passes.
pub const PASSES: u32 = 3;

/// Degree of parallelism.
pub const LANES: u32 = 1;

/// Errors raised while hashing or verifying a password.
#[derive(Debug, Clone, PartialEq, Eq)]
pub enum PasswordError {
    /// The hash function failed; its message.
    Argon2(String),
    /// The stored hash is malformed; the parser's message.
    InvalidHash(String),
}

/// What a [`PasswordError`] says.
pub enum PasswordFault {
    Argon2(Seq<char>),
    InvalidHash(Seq<char>),
}

impl View for PasswordError {
    type V = PasswordFault;

    open spec fn view(&self) -> PasswordFault {
        match *self {
            PasswordError::Argon2(m) => PasswordFault::Argon2(m@),
            PasswordError::InvalidHash(m) => PasswordFault::InvalidHash(m@),
        }
    }
}

impl PasswordFault {
    /// The message of the error.
    pub open spec fn message(self) -> Seq<char> {
        match self {
            PasswordFault::Argon2(m) => "argon2: "@ + m,
            PasswordFault::InvalidHash(m) => "invalid stored hash: "@ + m,
        }
    }
}

impl PasswordError {
    /// The message of the error.
    pub fn to_string(&self) -> (s: String)
        ensures
            s@ == self@.message(),
    {
        match self {
            PasswordError::Argon2(m) => text::concat("argon2: ", m.as_str()),
            PasswordError::InvalidHash(m) => text::concat("invalid stored hash: ", m.as_str()),
        }
    }
}

/// Whether this is what hashing `password` with the salt `salt` gives: Argon2id
/// with the costs above. A string that comes out accepts the password, and any
/// password can be checked against it.
pub open spec fn hashed(
    r: Result<String, PasswordError>,
    password: Seq<char>,
    salt: Seq<char>,
) -> bool {
    match crypto::argon2id_phc(password, salt, MEMORY_KIB, PASSES, LANES) {
        Ok(h) => r matches Ok(s) && s@ == h && crypto::accepts(s@, password) && crypto::reliable(
            s@,
        ),
        Err(m) => r matches Err(e) && e@ == PasswordFault::Argon2(m),
    }
}

/// Hash `password` with Argon2id and the salt `salt` (unpadded base64). The
/// encoded string accepts the password.
pub fn hash_with_salt(password: &str, salt: &str) -> (r: Result<String, PasswordError>)
    ensures
        hashed(r, password@, salt@),
        crypto::is_salt(salt@) && crypto::is_hashable(password@) ==> r is Ok,
{
    match crypto::argon2_hash(password, salt, MEMORY_KIB, PASSES, LANES) {
        Ok(h) => Ok(h),
        Err(e) => Err(PasswordError::Argon2(e)),
    }
}

/// Hash `password` with Argon2id and a fresh random salt. A string that comes
/// out is accepted by [`verify`] with the same password.
pub fn hash(password: &str) -> (r: Result<String, PasswordError>)
    ensures
        exists|salt: Seq<char>| crypto::is_salt(salt) && #[trigger] hashed(r, password@, salt),
        crypto::is_hashable(password@) ==> r is Ok,
{
    let salt = crypto::fresh_salt();
    let r = hash_with_salt(password, salt.as_str());
    assert(hashed(r, password@, salt@));
    r
}

/// What is made of a PHC string with more lanes than can be counted.
pub const TOO_MANY_LANES: &'static str = "invalid parameter value: value to long";

/// The judgement on a password and a PHC string.
pub open spec fn verdict(password: Seq<char>, encoded: Seq<char>) -> Result<bool, PasswordFault> {
    match crypto::phc_error(encoded) {
        Some(m) => Err(PasswordFault::InvalidHash(m)),
        None => if !crypto::phc_parts(encoded).checkable() {
            Err(PasswordFault::Argon2("invalid parameter value: value to long"@))
        } else {
            match crypto::argon2_matches(password, encoded) {
                Ok(b) => Ok(b),
                Err(m) => Err(PasswordFault::Argon2(m)),
            }
        },
    }
}

/// The view of a judgement.
pub open spec fn verdict_view(r: Result<bool, PasswordError>) -> Result<bool, PasswordFault> {
    match r {
        Ok(b) => Ok(b),
        Err(e) => Err(e@),
    }
}

/// Verify `password` against a PHC string: `Ok(true)` on a match, `Ok(false)` on
/// a clean mismatch, and an error if the stored string is malformed or cannot be
/// evaluated.
pub fn verify(password: &str, encoded: &str) -> (r: Result<bool, PasswordError>)
    ensures
        verdict_view(r) == verdict(password@, encoded@),
{
    if let Some(e) = crypto::phc_problem(encoded) {
        return Err(PasswordError::InvalidHash(e));
    }
    if !crypto::is_checkable(&crypto::phc_fields(encoded)) {
        return Err(PasswordError::Argon2(text::owned(TOO_MANY_LANES)));
    }
    match crypto::argon2_check(password, encoded) {
        Ok(b) => Ok(b),
        Err(e) => Err(PasswordError::Argon2(e)),
    }
}

// ----- laws ------------------------------------------------------------------

/// What hashing gives is accepted with the same password, and judged without an
/// error with any other.
pub proof fn hashes_can_be_checked(
    r: Result<String, PasswordError>,
    password: Seq<char>,
    salt: Seq<char>,
    other: Seq<char>,
)
    requires
        hashed(r, password, salt),
        r is Ok,
    ensures
        verdict(password, r->Ok_0@) == Ok::<bool, PasswordFault>(true),
        verdict(other, r->Ok_0@) is Ok,
{
}

/// A text that is no PHC string is refused with every password.
pub proof fn malformed_hashes_are_refused(password: Seq<char>, encoded: Seq<char>)
    requires
        crypto::phc_error(encoded) is Some,
    ensures
        verdict(password, encoded) == Err::<bool, PasswordFault>(
            PasswordFault::InvalidHash(crypto::phc_error(encoded)->Some_0),
        ),
{
}

} // verus!
