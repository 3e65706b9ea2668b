use vstd::prelude::*;
use crate::error::CommonError;
use vstd::string::StringSliceAdditionalSpecFns;

verus! {

/// A named result: the 32-byte Argon2id hash (version 0x13, 19 MiB, two
/// passes, one lane) of `password` with `salt`.
pub uninterp spec fn argon2id_of(password: Seq<u8>, salt: Seq<u8>) -> Seq<u8>;

/// Relies on `argon2::Argon2::default().hash_password_into`: with a 32-byte
/// output, a password of at most 2^32 - 1 bytes and a salt of 8 to
/// 2^32 - 1 bytes it fills the output and does not fail.
#[verifier::external_body]
fn argon2id_key(password: &[u8], salt: &[u8]) -> (r: Option<[u8; 32]>)
    requires
        password@.len() <= 0xFFFF_FFFF,
        8 <= salt@.len() <= 0xFFFF_FFFF,
    ensures
        r is Some,
        r matches Some(k) ==> k@ == argon2id_of(password@, salt@),
{
    let mut out = [0u8; 32];
    match argon2::Argon2::default().hash_password_into(password, salt, &mut out) {
        Ok(()) => Some(out),
        Err(_) => None,
    }
}

/// Relies on `rand_core::OsRng::try_fill_bytes`: on success the buffer
/// holds bytes from the operating system's random source.
#[verifier::external_body]
fn os_rng_bytes(n: usize) -> (r: Option<Vec<u8>>)
    ensures
        r matches Some(b) ==> b@.len() == n,
{
    let mut b = vec![0u8; n];
    match rand_core::TryRngCore::try_fill_bytes(&mut rand_core::OsRng, &mut b) {
        Ok(()) => Some(b),
        Err(_) => None,
    }
}

/// The length of the salt made for a new vault.
pub const SALT_LEN: usize = 16;

/// A salt of at least 16 bytes (and at most 2^32 - 1, Argon2's limit).
pub open spec fn salt_ok(salt: Seq<u8>) -> bool {
    16 <= salt.len() <= 0xFFFF_FFFF
}

/// What deriving a key from password bytes `pw` and `salt` gives: the
/// Argon2id hash and the salt; `InvalidMasterKey` for a salt outside 16 to
/// 2^32 - 1 bytes, `InvalidPassword` for a password over 2^32 - 1 bytes.
pub open spec fn derived_from(pw: Seq<u8>, salt: Seq<u8>, r: Result<(Seq<u8>, Seq<u8>), CommonError>) -> bool {
    if !salt_ok(salt) {
        r == Err::<(Seq<u8>, Seq<u8>), CommonError>(CommonError::InvalidMasterKey)
    } else if pw.len() > 0xFFFF_FFFF {
        r == Err::<(Seq<u8>, Seq<u8>), CommonError>(CommonError::InvalidPassword)
    } else {
        r == Ok::<(Seq<u8>, Seq<u8>), CommonError>((argon2id_of(pw, salt), salt))
    }
}

pub open spec fn key_result(r: Result<([u8; 32], Vec<u8>), CommonError>) -> Result<(Seq<u8>, Seq<u8>), CommonError> {
    match r {
        Ok((k, s)) => Ok((k@, s@)),
        Err(e) => Err(e),
    }
}

/// Derives a 32-byte key from a password. With a salt the result is
/// `derived_from` the password's UTF-8 bytes and that salt; without one a
/// fresh random 16-byte salt is made (`UnexpectedError` when the random
/// source fails).
pub fn derive_key(password: &str, salt_opt: Option<&[u8]>) -> (r: Result<([u8; 32], Vec<u8>), CommonError>)
    ensures
        salt_opt matches Some(s) ==> derived_from(password.spec_bytes(), s@, key_result(r)),
        salt_opt is None ==> (r matches Ok((_k, s)) ==> s@.len() == SALT_LEN && derived_from(
            password.spec_bytes(),
            s@,
            key_result(r),
        )),
        salt_opt is None ==> (r matches Err(e) ==> e is UnexpectedError || (e == CommonError::InvalidPassword
            && password.spec_bytes().len() > 0xFFFF_FFFF)),
{
    let salt: Vec<u8> = match salt_opt {
        Some(s) => vstd::slice::slice_to_vec(s),
        None => match os_rng_bytes(SALT_LEN) {
            Some(b) => b,
            None => {
                return Err(CommonError::UnexpectedError(String::from_str("random source failed")));
            },
        },
    };
    if salt.len() < 16 || salt.len() > 0xFFFF_FFFF {
        return Err(CommonError::InvalidMasterKey);
    }
    let pw = password.as_bytes();
    if pw.len() > 0xFFFF_FFFF {
        return Err(CommonError::InvalidPassword);
    }
    match argon2id_key(pw, salt.as_slice()) {
        Some(k) => Ok((k, salt)),
        None => {
            proof {
                assert(false);
            }
            Err(CommonError::InvalidMasterKey)
        },
    }
}

/// Derivation is deterministic: two results that both meet `derived_from`
/// for one password and salt are equal.
pub proof fn lemma_derive_deterministic(pw: Seq<u8>, salt: Seq<u8>, r1: Result<(Seq<u8>, Seq<u8>), CommonError>, r2: Result<(Seq<u8>, Seq<u8>), CommonError>)
    requires
        derived_from(pw, salt, r1),
        derived_from(pw, salt, r2),
    ensures
        r1 == r2,
{
}

} // verus!
