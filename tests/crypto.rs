use xauthenticator::crypto::{decrypt_xchacha20poly1305, encrypt_with_nonce, encrypt_xchacha20poly1305};
use xauthenticator::error::CommonError;
use xauthenticator::kdf::derive_key;

const K1: [u8; 32] = [7u8; 32];
const K2: [u8; 32] = [8u8; 32];

#[test]
fn seal_then_open_round_trips() {
    for p in [b"".to_vec(), b"secret".to_vec(), vec![0xAB; 1000]] {
        let (nonce, ct) = encrypt_xchacha20poly1305(&p, &K1).unwrap();
        assert_eq!(nonce.len(), 24);
        assert_eq!(ct.len(), p.len() + 16);
        assert_eq!(decrypt_xchacha20poly1305(&ct, &nonce, &K1), Ok(p));
    }
}

#[test]
fn ciphertext_differs_from_plaintext() {
    let p = b"0123456789abcdef".to_vec();
    let (_nonce, ct) = encrypt_xchacha20poly1305(&p, &K1).unwrap();
    assert_ne!(&ct[..p.len()], &p[..]);
}

#[test]
fn each_seal_takes_a_fresh_nonce() {
    let (n1, c1) = encrypt_xchacha20poly1305(b"same", &K1).unwrap();
    let (n2, c2) = encrypt_xchacha20poly1305(b"same", &K1).unwrap();
    assert_ne!(n1, n2);
    assert_ne!(c1, c2);
}

#[test]
fn open_under_another_key_fails() {
    let (nonce, ct) = encrypt_xchacha20poly1305(b"secret", &K1).unwrap();
    assert_eq!(decrypt_xchacha20poly1305(&ct, &nonce, &K2), Err(CommonError::AuthenticationFailed));
}

#[test]
fn tampering_is_detected() {
    let (nonce, mut ct) = encrypt_xchacha20poly1305(b"secret", &K1).unwrap();
    ct[0] ^= 1;
    assert_eq!(decrypt_xchacha20poly1305(&ct, &nonce, &K1), Err(CommonError::AuthenticationFailed));
    let (nonce2, ct2) = encrypt_xchacha20poly1305(b"secret", &K1).unwrap();
    let mut bad_nonce = nonce2.clone();
    bad_nonce[3] ^= 0x80;
    assert_eq!(decrypt_xchacha20poly1305(&ct2, &bad_nonce, &K1), Err(CommonError::AuthenticationFailed));
    assert_eq!(decrypt_xchacha20poly1305(&ct2[..10], &nonce2, &K1), Err(CommonError::AuthenticationFailed));
}

#[test]
fn nonce_of_wrong_length_is_refused() {
    let (nonce, ct) = encrypt_xchacha20poly1305(b"secret", &K1).unwrap();
    assert_eq!(decrypt_xchacha20poly1305(&ct, &nonce[..12], &K1), Err(CommonError::AuthenticationFailed));
}

#[test]
fn derivation_is_deterministic() {
    let salt = [1u8; 16];
    let (k1, s1) = derive_key("Str0ng!Passw0rd", Some(&salt)).unwrap();
    let (k2, s2) = derive_key("Str0ng!Passw0rd", Some(&salt)).unwrap();
    assert_eq!(k1, k2);
    assert_eq!(s1, salt.to_vec());
    assert_eq!(s2, salt.to_vec());
    assert_ne!(k1.to_vec(), b"Str0ng!Passw0rd".to_vec());
}

#[test]
fn derivation_depends_on_salt_and_password() {
    let salt = [1u8; 16];
    let mut other_salt = salt;
    other_salt[15] = 2;
    let (k, _) = derive_key("Str0ng!Passw0rd", Some(&salt)).unwrap();
    let (k_salt, _) = derive_key("Str0ng!Passw0rd", Some(&other_salt)).unwrap();
    let (k_pw, _) = derive_key("Str0ng!Passw0re", Some(&salt)).unwrap();
    assert_ne!(k, k_salt);
    assert_ne!(k, k_pw);
}

#[test]
fn short_salt_is_refused() {
    assert_eq!(derive_key("pw", Some(&[0u8; 7])).err(), Some(CommonError::InvalidMasterKey));
    assert_eq!(derive_key("pw", Some(&[0u8; 15])).err(), Some(CommonError::InvalidMasterKey));
    assert_eq!(derive_key("pw", Some(&[])).err(), Some(CommonError::InvalidMasterKey));
}

#[test]
fn fresh_salt_is_sixteen_bytes() {
    let (k, salt) = derive_key("Str0ng!Passw0rd", None).unwrap();
    assert_eq!(salt.len(), 16);
    let (k_again, _) = derive_key("Str0ng!Passw0rd", Some(&salt)).unwrap();
    assert_eq!(k, k_again);
}

#[test]
fn fresh_salts_differ() {
    let (_, a) = derive_key("Str0ng!Passw0rd", None).unwrap();
    let (_, b) = derive_key("Str0ng!Passw0rd", None).unwrap();
    assert_ne!(a, b);
}

#[test]
fn sealing_with_a_given_nonce() {
    let nonce = [9u8; 24];
    let (n, c) = encrypt_with_nonce(b"abc", &K1, nonce).unwrap();
    assert_eq!(n, nonce.to_vec());
    assert_eq!(c.len(), 3 + 16);
    let (_, again) = encrypt_with_nonce(b"abc", &K1, nonce).unwrap();
    assert_eq!(c, again);
    assert_eq!(decrypt_xchacha20poly1305(&c, &n, &K1), Ok(b"abc".to_vec()));
}
