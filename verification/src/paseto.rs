//! The token codec: signing against the current key set, and verification
//! with an automatic fallback to the retired verification key — only when
//! the failure is specifically a signature mismatch, never for a
//! structurally malformed token.

use vstd::prelude::*;
use crate::keys::{KeySet, public_key_of};
use crate::error::Error;

verus! {

/// Longest claim payload, in characters, whose signed token is certain to
/// stay within the verifier's size cap.  The verifier rejects tokens over
/// 64 KiB before parsing; a signed token is a 10-byte header plus the
/// unpadded base64 of the message and a 64-byte signature, so messages up
/// to 49080 bytes fit, and a character occupies at most 4 bytes.
pub const MAX_SIGNED_PAYLOAD_CHARS: usize = 12000;

/// Whether a payload is small enough that its signed token is certain to
/// be accepted back by the verifier's size cap.
pub open spec fn fits_token_limit(payload: Seq<char>) -> bool {
    payload.len() <= MAX_SIGNED_PAYLOAD_CHARS
}

/// Whether a string parses structurally as a signed token of the scheme
/// in use (a versioned public-purpose token within the verifier's size
/// cap, whose embedded message decodes as text).
pub uninterp spec fn paseto_wellformed(token: Seq<char>) -> bool;

/// The claim payload embedded in a well-formed token.
pub uninterp spec fn paseto_payload(token: Seq<char>) -> Seq<char>;

/// Whether the embedded signature of a well-formed token verifies under
/// the given 32-byte verification key.
pub uninterp spec fn paseto_valid(token: Seq<char>, key: Seq<u8>) -> bool;

/// How one verification attempt failed.
#[derive(Clone, Copy, Debug, PartialEq, Eq, Structural)]
enum VerifyFailure {
    /// The token parsed, but the signature did not match the key.
    BadSignature,
    /// The token could not be parsed structurally.
    Malformed,
}

/// Relies on `rusty_paseto::core::Paseto::<V4, Public>::try_sign` with the
/// 64-byte expanded key (seed then public key): with a matching pair the
/// call succeeds; the returned token embeds exactly the given payload and
/// verifies under the pair's public key (Ed25519 signing is deterministic)
/// *provided the payload is small enough that the token stays within the
/// verifier's size cap* — signing itself enforces no limit, so an
/// oversized payload still signs but the verifier refuses the result
/// before parsing it.  With a mismatched pair the key is rejected.
#[verifier::external_body]
fn sign_with(seed: &[u8; 32], vk: &[u8; 32], payload: &str) -> (r: Result<String, Error>)
    ensures
        vk@ == public_key_of(seed@) ==> r is Ok,
        r matches Ok(t) ==> (vk@ == public_key_of(seed@) && fits_token_limit(payload@)
            ==> paseto_wellformed(t@) && paseto_valid(t@, vk@) && paseto_payload(t@)
            == payload@),
{
    let mut key = [0u8; 64];
    key[..32].copy_from_slice(seed);
    key[32..].copy_from_slice(vk);
    let key = rusty_paseto::core::Key::from(&key);
    let sk = rusty_paseto::core::PasetoAsymmetricPrivateKey::<rusty_paseto::core::V4, rusty_paseto::core::Public>::from(&key);
    let signed = rusty_paseto::core::Paseto::<rusty_paseto::core::V4, rusty_paseto::core::Public>::builder().set_payload(rusty_paseto::core::Payload::from(payload)).try_sign(&sk);
    match signed {
        Ok(token) => Ok(token),
        Err(err) => Err(Error::InternalServerError(err.to_string())),
    }
}

/// Relies on `rusty_paseto::core::Paseto::<V4, Public>::try_verify`: it
/// succeeds exactly when the token is well-formed (within the size cap,
/// structurally a public-purpose token of the scheme, its embedded
/// message decoding as text) and the embedded Ed25519 signature verifies
/// under the key, and then returns the embedded payload.  On a well-formed
/// token a failing signature check surfaces as the signature-error
/// variants (in this crate version the `ed25519_dalek` error carried by
/// `RsaCipher`, or `InvalidSignature`).  The converse does not hold: the
/// message's text check runs only *after* the signature check, so a token
/// whose message is not text answers a signature error under a key that
/// does not match it, and a structural error under one that does.
#[verifier::external_body]
fn verify_with(token: &str, key: &[u8; 32]) -> (r: Result<String, VerifyFailure>)
    ensures
        r is Ok ==> paseto_wellformed(token@) && paseto_valid(token@, key@),
        paseto_wellformed(token@) && paseto_valid(token@, key@) ==> r is Ok,
        r matches Ok(p) ==> p@ == paseto_payload(token@),
        r matches Err(f) ==> (paseto_wellformed(token@) && !paseto_valid(token@, key@)
            ==> f is BadSignature),
{
    let k = rusty_paseto::core::Key::from(key);
    let pk = rusty_paseto::core::PasetoAsymmetricPublicKey::<rusty_paseto::core::V4, rusty_paseto::core::Public>::from(&k);
    let checked = rusty_paseto::core::Paseto::<rusty_paseto::core::V4, rusty_paseto::core::Public>::try_verify(token, &pk, None, None);
    match checked {
        Ok(payload) => Ok(payload),
        Err(rusty_paseto::core::PasetoError::InvalidSignature) => Err(VerifyFailure::BadSignature),
        Err(rusty_paseto::core::PasetoError::RsaCipher { source: _ }) => Err(VerifyFailure::BadSignature),
        Err(_) => Err(VerifyFailure::Malformed),
    }
}

/// What verification against a key set yields: the payload whenever the
/// token is well-formed and its signature matches the current key, or —
/// failing that — the retained previous key; nothing otherwise.
pub open spec fn verify_model(token: Seq<char>, vk: Seq<u8>, prev: Option<Seq<u8>>) -> Option<
    Seq<char>,
> {
    if paseto_wellformed(token) && (paseto_valid(token, vk) || (prev is Some && paseto_valid(
        token,
        prev->0,
    ))) {
        Some(paseto_payload(token))
    } else {
        None
    }
}

/// The view of a key set's previous verification key.
pub open spec fn prev_view(keys: KeySet) -> Option<Seq<u8>> {
    match keys.previous_verify_key {
        Option::Some(k) => Some(k@),
        Option::None => None,
    }
}

/// Signs a claim payload against the current key set.  With well-formed
/// key material the call succeeds; and for payloads within the verifier's
/// size cap the returned token verifies under the set's verification key,
/// embedding exactly this payload.
pub fn try_sign_payload(payload: &str, keys: &KeySet) -> (r: Result<String, Error>)
    ensures
        keys.verify_key@ == public_key_of(keys.signing_key@) ==> r is Ok,
        r matches Ok(t) ==> (keys.verify_key@ == public_key_of(keys.signing_key@)
            && fits_token_limit(payload@) ==> (paseto_wellformed(t@) && paseto_valid(
            t@,
            keys.verify_key@,
        ) && paseto_payload(t@) == payload@)),
{
    sign_with(&keys.signing_key, &keys.verify_key, payload)
}

/// Verifies a presented token against the key set and hands back the
/// embedded claim payload.  The previous key is tried only when the
/// current key's attempt fails on the signature; a token the first
/// attempt rejects as structurally malformed is never retried.  When both
/// keys reject the signature, or there is no previous key, the signature
/// error stands.
pub fn try_verify_payload(signature: &str, keys: &KeySet) -> (r: Result<String, Error>)
    ensures
        verify_model(signature@, keys.verify_key@, prev_view(*keys)) matches Some(p) ==> (
        r matches Ok(s) && s@ == p),
        verify_model(signature@, keys.verify_key@, prev_view(*keys)) is None ==> r is Err,
        r matches Err(e) ==> (e is MalformedToken || e is InvalidSignature),
        paseto_wellformed(signature@) && verify_model(
            signature@,
            keys.verify_key@,
            prev_view(*keys),
        ) is None ==> r == Err::<String, Error>(Error::InvalidSignature),
{
    match verify_with(signature, &keys.verify_key) {
        Ok(payload) => Ok(payload),
        Err(VerifyFailure::Malformed) => Err(Error::MalformedToken),
        Err(VerifyFailure::BadSignature) => {
            match &keys.previous_verify_key {
                None => Err(Error::InvalidSignature),
                Some(prev) => {
                    match verify_with(signature, prev) {
                        Ok(payload) => Ok(payload),
                        Err(_) => Err(Error::InvalidSignature),
                    }
                },
            }
        },
    }
}

/// Grace-window fallback: a well-formed token that verifies under the
/// retired key `k1` but not under the current key `k2` is accepted by a
/// key set that retains `k1` as previous key, and rejected by one that
/// retains nothing.  (That the token fails under `k2` is a hypothesis: no
/// contract of the signature primitive can rule out a collision between
/// unrelated keys.)
pub proof fn lemma_grace_window_fallback(token: Seq<char>, k2: Seq<u8>, k1: Seq<u8>)
    requires
        paseto_wellformed(token),
        paseto_valid(token, k1),
        !paseto_valid(token, k2),
    ensures
        verify_model(token, k2, Some(k1)) == Some(paseto_payload(token)),
        verify_model(token, k2, None) is None,
{
}

} // verus!
