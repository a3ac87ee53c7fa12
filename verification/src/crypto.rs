//! Cryptographic functions, as their crates compute them, and random bytes.

use crate::text;
use argon2::password_hash::{PasswordHash, PasswordHasher, PasswordVerifier, SaltString};
use hmac::Mac;
use rand::RngCore;
use sha2::Digest;
use vstd::prelude::*;
use vstd::utf8;

verus! {

/// HMAC-SHA256 of a message under a key.
pub uninterp spec fn hmac_sha256(key: Seq<u8>, message: Seq<u8>) -> Seq<u8>;

/// HKDF-SHA256: the first 32 bytes derived from a salt, key material and info.
pub uninterp spec fn hkdf_sha256(salt: Seq<u8>, material: Seq<u8>, info: Seq<u8>) -> Seq<u8>;

/// SHA-256 of a message.
pub uninterp spec fn sha256(message: Seq<u8>) -> Seq<u8>;

/// The PHC string of a password under Argon2id (version 0x13) with the given
/// salt, memory in KiB, passes and lanes; or the message of the error.
pub uninterp spec fn argon2id_phc(
    password: Seq<char>,
    salt: Seq<char>,
    memory: u32,
    passes: u32,
    lanes: u32,
) -> Result<Seq<char>, Seq<char>>;

/// Why a text is no PHC string, if it is none.
pub uninterp spec fn phc_error(encoded: Seq<char>) -> Option<Seq<char>>;

/// What a PHC string is made of.
pub uninterp spec fn phc_parts(encoded: Seq<char>) -> PhcView;

/// Whether a password matches a PHC string, or the message of the error.
pub uninterp spec fn argon2_matches(
    password: Seq<char>,
    encoded: Seq<char>,
) -> Result<bool, Seq<char>>;

/// Whether the PHC string `encoded` is sound and accepts the password.
pub open spec fn accepts(encoded: Seq<char>, password: Seq<char>) -> bool {
    phc_error(encoded) is None && phc_parts(encoded).checkable() && argon2_matches(
        password,
        encoded,
    ) == Ok::<bool, Seq<char>>(true)
}

/// What a PHC string is made of, as far as it bears on checking a password.
#[derive(Debug, Clone, PartialEq, Eq)]
pub struct PhcParts {
    /// Whether there is a salt.
    pub salted: bool,
    /// Whether there is a hash.
    pub hashed: bool,
    /// The parameters in order, each with its value if that is a decimal number.
    pub params: Vec<(String, Option<u32>)>,
}

/// What [`PhcParts`] hold.
pub struct PhcView {
    pub salted: bool,
    pub hashed: bool,
    pub params: Seq<(Seq<char>, Option<u32>)>,
}

impl View for PhcParts {
    type V = PhcView;

    open spec fn view(&self) -> PhcView {
        PhcView { salted: self.salted, hashed: self.hashed, params: param_views(self.params@) }
    }
}

/// The views of a list of parameters.
pub open spec fn param_views(l: Seq<(String, Option<u32>)>) -> Seq<(Seq<char>, Option<u32>)> {
    Seq::new(l.len(), |i: int| (l[i].0@, l[i].1))
}

/// The degree of parallelism that parameters ask for: the last one given, or one
/// lane.
pub open spec fn lanes_of(params: Seq<(Seq<char>, Option<u32>)>) -> u32
    decreases params.len(),
{
    if params.len() == 0 {
        1
    } else if params.last().0 == "p"@ && params.last().1 is Some {
        params.last().1->Some_0
    } else {
        lanes_of(params.drop_last())
    }
}

/// Largest degree of parallelism whose least memory, eight blocks a lane, can be
/// counted.
pub const COUNTABLE_LANES: u32 = 536_870_911;

impl PhcView {
    /// Whether a password can be checked against it: if there is anything to
    /// compute, its lanes can be counted.
    pub open spec fn checkable(self) -> bool {
        self.salted && self.hashed ==> lanes_of(self.params) <= COUNTABLE_LANES
    }
}

/// Whether a password can be checked against a PHC string of these parts.
pub fn is_checkable(parts: &PhcParts) -> (b: bool)
    ensures
        b == parts@.checkable(),
{
    let mut lanes: u32 = 1;
    let mut i: usize = 0;
    let ghost all = param_views(parts.params@);
    while i < parts.params.len()
        invariant
            i <= parts.params.len(),
            all == param_views(parts.params@),
            lanes == lanes_of(all.take(i as int)),
        decreases parts.params.len() - i,
    {
        proof {
            let next = all.take(i + 1);
            assert(next.drop_last() =~= all.take(i as int));
            assert(next.last() == all[i as int]);
        }
        if text::str_eq(parts.params[i].0.as_str(), "p") {
            if let Some(n) = parts.params[i].1 {
                lanes = n;
            }
        }
        i = i + 1;
    }
    assert(all.take(all.len() as int) =~= all);
    !parts.salted || !parts.hashed || lanes <= COUNTABLE_LANES
}

/// Whether every password can be checked against the PHC string `encoded`: it
/// matches or does not, and nothing else goes wrong.
pub open spec fn reliable(encoded: Seq<char>) -> bool {
    &&& phc_error(encoded) is None
    &&& phc_parts(encoded).checkable()
    &&& forall|other: Seq<char>| (#[trigger] argon2_matches(other, encoded)) is Ok
}

/// The view of a result that holds text.
pub open spec fn text_result(r: Result<String, String>) -> Result<Seq<char>, Seq<char>> {
    match r {
        Ok(s) => Ok(s@),
        Err(e) => Err(e@),
    }
}

/// Whether a hashing result, if it is one, accepts the password it was made
/// from, and judges every other.
pub open spec fn opens_with(r: Result<String, String>, password: Seq<char>) -> bool {
    match r {
        Ok(h) => accepts(h@, password) && reliable(h@),
        Err(_) => true,
    }
}

/// The view of a matching result.
pub open spec fn match_result(r: Result<bool, String>) -> Result<bool, Seq<char>> {
    match r {
        Ok(b) => Ok(b),
        Err(e) => Err(e@),
    }
}

/// The view of an optional message.
pub open spec fn message_view(r: Option<String>) -> Option<Seq<char>> {
    match r {
        Some(e) => Some(e@),
        None => None,
    }
}

/// `hmac::Hmac<sha2::Sha256>`, which takes a key of any length: its output is a
/// function of key and message alone.
#[verifier::external_body]
pub(crate) fn hmac_tag(key: &[u8], message: &[u8]) -> (tag: [u8; 32])
    ensures
        tag@ == hmac_sha256(key@, message@),
{
    let mut mac = <hmac::Hmac<sha2::Sha256> as Mac>::new_from_slice(key).expect("any key length");
    mac.update(message);
    mac.finalize().into_bytes().into()
}

/// `hkdf::Hkdf<sha2::Sha256>::expand` into 32 bytes, which is within its length
/// limit: its output is a function of the three inputs alone.
#[verifier::external_body]
pub(crate) fn hkdf_key(salt: &[u8], material: &[u8], info: &[u8]) -> (key: [u8; 32])
    ensures
        key@ == hkdf_sha256(salt@, material@, info@),
{
    let hk = hkdf::Hkdf::<sha2::Sha256>::new(Some(salt), material);
    let mut okm = [0u8; 32];
    hk.expand(info, &mut okm).expect("32 bytes is a valid length");
    okm
}

/// `sha2::Sha256`: its output is a function of the message alone.
#[verifier::external_body]
pub(crate) fn sha256_digest(message: &[u8]) -> (digest: [u8; 32])
    ensures
        digest@ == sha256(message@),
{
    sha2::Sha256::digest(message).into()
}

/// `rand::rngs::OsRng::fill_bytes`: 32 bytes from the operating system's random
/// source; nothing is claimed of them.
#[verifier::external_body]
pub(crate) fn random_bytes() -> (b: [u8; 32]) {
    let mut b = [0u8; 32];
    rand::rngs::OsRng.fill_bytes(&mut b);
    b
}

/// Whether a text is a salt of 16 bytes in unpadded base64: 22 characters, of which
/// the last one stands for two bits.
pub open spec fn is_salt(s: Seq<char>) -> bool {
    &&& s.len() == 22
    &&& forall|i: int|
        0 <= i < 22 ==> {
            let c = #[trigger] s[i];
            'A' <= c <= 'Z' || 'a' <= c <= 'z' || '0' <= c <= '9' || c == '+' || c == '/'
        }
    &&& s[21] == 'A' || s[21] == 'Q' || s[21] == 'g' || s[21] == 'w'
}

/// Whether a password is short enough for Argon2: at most 2 to the power of 32
/// bytes, less one.
pub open spec fn is_hashable(password: Seq<char>) -> bool {
    utf8::encode_utf8(password).len() <= 0xffff_ffff
}

/// `argon2::password_hash::SaltString::generate`: 16 fresh random bytes in unpadded
/// base64. Nothing is claimed of the bytes.
#[verifier::external_body]
pub(crate) fn fresh_salt() -> (s: String)
    ensures
        is_salt(s@),
{
    SaltString::generate(&mut argon2::password_hash::rand_core::OsRng).as_str().to_owned()
}

/// `Argon2::hash_password` for Argon2id version 0x13: its result, or the text of
/// its error, is a function of the inputs alone, and a hash that it hands out is
/// a sound PHC string that accepts the password. Any other password can be checked
/// against it, too: salt and parameters were good for hashing, and a password that
/// is too long counts as a mismatch. With a salt of 16 bytes, only a password that is
/// too long is refused. The bounds are those of `argon2::Params::new`.
#[verifier::external_body]
pub(crate) fn argon2_hash(password: &str, salt: &str, memory: u32, passes: u32, lanes: u32) -> (r:
    Result<String, String>)
    requires
        1 <= lanes <= 0xff_ffff,
        8 * lanes <= memory,
        1 <= passes,
    ensures
        text_result(r) == argon2id_phc(password@, salt@, memory, passes, lanes),
        opens_with(r, password@),
        is_salt(salt@) && is_hashable(password@) ==> r is Ok,
{
    let params = argon2::Params::new(memory, passes, lanes, None).expect("parameters in range");
    let hasher = argon2::Argon2::new(argon2::Algorithm::Argon2id, argon2::Version::V0x13, params);
    SaltString::from_b64(salt)
        .and_then(|s| hasher.hash_password(password.as_bytes(), &s).map(|h| h.to_string()))
        .map_err(|e| e.to_string())
}

/// `argon2::password_hash::PasswordHash::new`: the text of its error, if any, is
/// a function of the input alone.
#[verifier::external_body]
pub(crate) fn phc_problem(encoded: &str) -> (r: Option<String>)
    ensures
        message_view(r) == phc_error(encoded@),
{
    PasswordHash::new(encoded).err().map(|e| e.to_string())
}

/// The fields of `argon2::password_hash::PasswordHash`, with the parameters as
/// `ParamsString::iter` and `Value::decimal` read them: a function of the input
/// alone.
#[verifier::external_body]
pub(crate) fn phc_fields(encoded: &str) -> (r: PhcParts)
    requires
        phc_error(encoded@) is None,
    ensures
        r@ == phc_parts(encoded@),
{
    let parsed = PasswordHash::new(encoded).expect("a PHC string");
    PhcParts {
        salted: parsed.salt.is_some(),
        hashed: parsed.hash.is_some(),
        params: parsed.params.iter().map(|(n, v)| (n.as_str().to_owned(), v.decimal().ok())).collect(),
    }
}

/// `PasswordVerifier::verify_password` of Argon2, which takes algorithm, version
/// and parameters from the PHC string: match, mismatch, or the text of another
/// error is a function of the two inputs alone. It multiplies the lanes by eight
/// before it looks whether they are too many.
#[verifier::external_body]
pub(crate) fn argon2_check(password: &str, encoded: &str) -> (r: Result<bool, String>)
    requires
        phc_error(encoded@) is None,
        phc_parts(encoded@).checkable(),
    ensures
        match_result(r) == argon2_matches(password@, encoded@),
{
    let parsed = PasswordHash::new(encoded).map_err(|e| e.to_string())?;
    match argon2::Argon2::default().verify_password(password.as_bytes(), &parsed) {
        Ok(()) => Ok(true),
        Err(argon2::password_hash::Error::Password) => Ok(false),
        Err(e) => Err(e.to_string()),
    }
}

} // verus!
