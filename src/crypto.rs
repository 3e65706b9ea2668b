use vstd::prelude::*;
use chacha20poly1305::aead::{Aead, KeyInit};
use crate::error::CommonError;

verus! {

/// A named result: the XChaCha20-Poly1305 ciphertext (with its 16-byte tag,
/// no associated data) of `plaintext` under `key` and `nonce`.
pub uninterp spec fn xchacha_seal_of(key: Seq<u8>, nonce: Seq<u8>, plaintext: Seq<u8>) -> Seq<u8>;

/// Whether a message is short enough for XChaCha20-Poly1305 (under
/// 2^32 - 1 blocks of 64 bytes).
pub open spec fn sealable(p: Seq<u8>) -> bool {
    p.len() / 64 < 0xFFFF_FFFF
}

/// Relies on `getrandom::fill`: on success the buffer holds bytes from the
/// operating system's random source.
#[verifier::external_body]
pub(crate) fn os_random_bytes(n: usize) -> (r: Option<Vec<u8>>)
    ensures
        r matches Some(b) ==> b@.len() == n,
{
    let mut b = vec![0u8; n];
    match getrandom::fill(&mut b) {
        Ok(()) => Some(b),
        Err(_) => None,
    }
}

/// Relies on `XChaCha20Poly1305::encrypt` with no associated data: it fails
/// only for a message of 2^32 - 1 blocks or more, the ciphertext is the
/// message's length plus the 16-byte tag, `XNonce::from_slice`
/// takes exactly 24 bytes, and (the message being XORed with a key stream)
/// no other message seals to the same ciphertext under the same key and nonce.
#[verifier::external_body]
fn xchacha_encrypt(key: &[u8; 32], nonce: &[u8], plaintext: &[u8]) -> (r: Option<Vec<u8>>)
    requires
        nonce@.len() == 24,
    ensures
        r is Some <==> sealable(plaintext@),
        r matches Some(c) ==> c@ == xchacha_seal_of(key@, nonce@, plaintext@),
        r matches Some(c) ==> c@.len() == plaintext@.len() + 16,
        r matches Some(c) ==> forall|q: Seq<u8>|
            sealable(q) && #[trigger] xchacha_seal_of(key@, nonce@, q) == c@ ==> q == plaintext@,
{
    let cipher = chacha20poly1305::XChaCha20Poly1305::new(key.into());
    cipher.encrypt(chacha20poly1305::XNonce::from_slice(nonce), plaintext).ok()
}

/// Relies on `XChaCha20Poly1305::decrypt` with no associated data: it gives
/// back `p` exactly when the ciphertext is the sealing of `p` under the same
/// key and nonce (the tag is checked first; the stream cipher makes `p`
/// the only such message).
#[verifier::external_body]
fn xchacha_decrypt(key: &[u8; 32], nonce: &[u8], ciphertext: &[u8]) -> (r: Option<Vec<u8>>)
    requires
        nonce@.len() == 24,
    ensures
        r matches Some(p) ==> sealable(p@) && xchacha_seal_of(key@, nonce@, p@) == ciphertext@,
        r matches Some(p) ==> forall|q: Seq<u8>|
            sealable(q) && #[trigger] xchacha_seal_of(key@, nonce@, q) == ciphertext@ ==> q == p@,
        r is None ==> forall|q: Seq<u8>|
            sealable(q) ==> #[trigger] xchacha_seal_of(key@, nonce@, q) != ciphertext@,
{
    let cipher = chacha20poly1305::XChaCha20Poly1305::new(key.into());
    cipher.decrypt(chacha20poly1305::XNonce::from_slice(nonce), ciphertext).ok()
}

/// What opening `ct` under `key` and `nonce` gives: the one message whose
/// sealing it is, or `AuthenticationFailed` when there is none (or the
/// nonce is not 24 bytes).
pub open spec fn opens_to(key: Seq<u8>, nonce: Seq<u8>, ct: Seq<u8>, r: Result<Seq<u8>, CommonError>) -> bool {
    match r {
        Ok(p) => {
            &&& nonce.len() == 24
            &&& sealable(p)
            &&& xchacha_seal_of(key, nonce, p) == ct
            &&& forall|q: Seq<u8>| sealable(q) && #[trigger] xchacha_seal_of(key, nonce, q) == ct ==> q == p
        },
        Err(e) => {
            &&& e == CommonError::AuthenticationFailed
            &&& (nonce.len() != 24 || forall|q: Seq<u8>| sealable(q) ==> #[trigger] xchacha_seal_of(key, nonce, q) != ct)
        },
    }
}

pub open spec fn bytes_result(r: Result<Vec<u8>, CommonError>) -> Result<Seq<u8>, CommonError> {
    match r {
        Ok(v) => Ok(v@),
        Err(e) => Err(e),
    }
}

/// Seals `plaintext` under `key` and `nonce`, and returns `(nonce,
/// ciphertext)`; the ciphertext is the message's length plus the 16-byte
/// tag. Fails with `UnexpectedError` exactly when the message is too long
/// to seal.
pub fn encrypt_with_nonce(plaintext: &[u8], key: &[u8; 32], nonce: [u8; 24]) -> (r: Result<(Vec<u8>, Vec<u8>), CommonError>)
    ensures
        r is Ok <==> sealable(plaintext@),
        r matches Ok((n, c)) ==> {
            &&& n@ == nonce@
            &&& c@ == xchacha_seal_of(key@, nonce@, plaintext@)
            &&& c@.len() == plaintext@.len() + 16
            &&& opens_to(key@, n@, c@, Ok(plaintext@))
        },
        r matches Err(e) ==> e is UnexpectedError,
{
    let n = vstd::slice::slice_to_vec(nonce.as_slice());
    match xchacha_encrypt(key, n.as_slice(), plaintext) {
        Some(c) => Ok((n, c)),
        None => Err(CommonError::UnexpectedError(String::from_str("encryption failed"))),
    }
}

/// Seals `plaintext` under `key` with a fresh random 24-byte nonce (see
/// `encrypt_with_nonce`). Fails with `UnexpectedError` when the random
/// source fails or the message is too long to seal.
pub fn encrypt_xchacha20poly1305(plaintext: &[u8], key: &[u8; 32]) -> (r: Result<(Vec<u8>, Vec<u8>), CommonError>)
    ensures
        r matches Ok((n, c)) ==> {
            &&& n@.len() == 24
            &&& c@ == xchacha_seal_of(key@, n@, plaintext@)
            &&& c@.len() == plaintext@.len() + 16
            &&& opens_to(key@, n@, c@, Ok(plaintext@))
        },
        r matches Err(e) ==> e is UnexpectedError,
        !sealable(plaintext@) ==> r is Err,
        sealable(plaintext@) ==> r is Ok || (r matches Err(CommonError::UnexpectedError(m)) && m@ == "random source failed"@),
{
    let drawn = match os_random_bytes(24) {
        Some(n) => n,
        None => {
            return Err(CommonError::UnexpectedError(String::from_str("random source failed")));
        },
    };
    let nonce: [u8; 24] = bytes_array(&drawn);
    encrypt_with_nonce(plaintext, key, nonce)
}

/// Opens `ciphertext` (see `opens_to`).
pub fn decrypt_xchacha20poly1305(ciphertext: &[u8], nonce: &[u8], key: &[u8; 32]) -> (r: Result<Vec<u8>, CommonError>)
    ensures
        opens_to(key@, nonce@, ciphertext@, bytes_result(r)),
{
    if nonce.len() != 24 {
        return Err(CommonError::AuthenticationFailed);
    }
    match xchacha_decrypt(key, nonce, ciphertext) {
        Some(p) => Ok(p),
        None => Err(CommonError::AuthenticationFailed),
    }
}

/// Opening what was sealed under the same key and nonce gives the
/// plaintext back.
pub proof fn lemma_open_sealed(key: Seq<u8>, nonce: Seq<u8>, p: Seq<u8>, r: Result<Seq<u8>, CommonError>)
    requires
        nonce.len() == 24,
        sealable(p),
        opens_to(key, nonce, xchacha_seal_of(key, nonce, p), r),
    ensures
        r == Ok::<Seq<u8>, CommonError>(p),
{
}

/// Opening is a function of key, nonce and ciphertext: two results that
/// both meet `opens_to` are equal.
pub proof fn lemma_opens_to_unique(key: Seq<u8>, nonce: Seq<u8>, ct: Seq<u8>, r1: Result<Seq<u8>, CommonError>, r2: Result<Seq<u8>, CommonError>)
    requires
        opens_to(key, nonce, ct, r1),
        opens_to(key, nonce, ct, r2),
    ensures
        r1 == r2,
{
}

/// A fixed-size key holding the 32 bytes of `v`.
pub fn key_from_vec(v: &Vec<u8>) -> (r: [u8; 32])
    requires
        v@.len() == 32,
    ensures
        r@ == v@,
{
    bytes_array(v)
}

/// A fixed-size array holding the `N` bytes of `v`.
pub fn bytes_array<const N: usize>(v: &Vec<u8>) -> (r: [u8; N])
    requires
        v@.len() == N,
    ensures
        r@ == v@,
{
    let mut k = [0u8; N];
    let mut i: usize = 0;
    while i < N
        invariant
            i <= N,
            v@.len() == N,
            forall|j: int| 0 <= j < i ==> k@[j] == v@[j],
        decreases N - i,
    {
        k[i] = v[i];
        i = i + 1;
    }
    assert(k@ =~= v@);
    k
}

} // verus!
