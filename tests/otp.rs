use xauthenticator::base32::base32_decode;
use xauthenticator::otp::{code_from_mac, counter_bytes, hotp, totp, Algorithm};

const RFC_SECRET: &[u8] = b"12345678901234567890";

fn secret_of(len: usize) -> Vec<u8> {
    RFC_SECRET.iter().cycle().take(len).cloned().collect()
}

#[test]
fn hotp_rfc4226_counter_zero() {
    assert_eq!(hotp(RFC_SECRET, 0, 6, Algorithm::Sha1), "755224");
}

#[test]
fn hotp_rfc4226_counter_one() {
    assert_eq!(hotp(RFC_SECRET, 1, 6, Algorithm::Sha1), "287082");
}

#[test]
fn hotp_rfc4226_further_counters() {
    let expected = ["359152", "969429", "338314", "254676", "287922", "162583", "399871", "520489"];
    for (i, code) in expected.iter().enumerate() {
        assert_eq!(hotp(RFC_SECRET, (i + 2) as u64, 6, Algorithm::Sha1), *code);
    }
}

#[test]
fn totp_rfc6238_sha1_at_59() {
    assert_eq!(totp(RFC_SECRET, 30, 8, Algorithm::Sha1, 59), "94287082");
}

#[test]
fn totp_rfc6238_sha1_at_1111111109() {
    assert_eq!(totp(RFC_SECRET, 30, 8, Algorithm::Sha1, 1111111109), "07081804");
}

#[test]
fn totp_rfc6238_sha1_at_1111111111() {
    assert_eq!(totp(RFC_SECRET, 30, 8, Algorithm::Sha1, 1111111111), "14050471");
}

#[test]
fn totp_rfc6238_sha256_and_sha512() {
    let s32 = secret_of(32);
    let s64 = secret_of(64);
    assert_eq!(totp(&s32, 30, 8, Algorithm::Sha256, 59), "46119246");
    assert_eq!(totp(&s64, 30, 8, Algorithm::Sha512, 59), "90693936");
    assert_eq!(totp(&s32, 30, 8, Algorithm::Sha256, 1111111109), "68084774");
    assert_eq!(totp(&s64, 30, 8, Algorithm::Sha512, 1111111109), "25091201");
}

#[test]
fn totp_is_hotp_at_whole_periods() {
    assert_eq!(totp(RFC_SECRET, 30, 6, Algorithm::Sha1, 30), hotp(RFC_SECRET, 1, 6, Algorithm::Sha1));
    assert_eq!(totp(RFC_SECRET, 30, 6, Algorithm::Sha1, 29), hotp(RFC_SECRET, 0, 6, Algorithm::Sha1));
}

#[test]
fn code_from_rfc4226_example_mac() {
    let mac: Vec<u8> = vec![
        0x1f, 0x86, 0x98, 0x69, 0x0e, 0x02, 0xca, 0x16, 0x61, 0x85, 0x50, 0xef, 0x7f, 0x19, 0xda, 0x8e, 0x94, 0x5b,
        0x55, 0x5a,
    ];
    assert_eq!(code_from_mac(&mac, 6), "872921");
    assert_eq!(code_from_mac(&mac, 10), "1357872921");
    assert_eq!(code_from_mac(&mac, 1), "1");
}

#[test]
fn code_is_zero_padded() {
    // offset 0, value 0x00000007
    let mut mac = vec![0u8; 20];
    mac[3] = 7;
    mac[19] = 0x10;
    assert_eq!(code_from_mac(&mac, 6), "000007");
}

#[test]
fn counter_bytes_are_big_endian() {
    assert_eq!(counter_bytes(0x0102030405060708), vec![1, 2, 3, 4, 5, 6, 7, 8]);
    assert_eq!(counter_bytes(1), vec![0, 0, 0, 0, 0, 0, 0, 1]);
}

#[test]
fn algorithm_names_fall_back_to_sha1() {
    assert_eq!(Algorithm::from_name("SHA256"), Algorithm::Sha256);
    assert_eq!(Algorithm::from_name("sha512"), Algorithm::Sha512);
    assert_eq!(Algorithm::from_name("SHA1"), Algorithm::Sha1);
    assert_eq!(Algorithm::from_name("MD5"), Algorithm::Sha1);
    assert_eq!(Algorithm::from_name(""), Algorithm::Sha1);
}

#[test]
fn base32_rfc_secret() {
    assert_eq!(base32_decode(b"GEZDGNBVGY3TQOJQGEZDGNBVGY3TQOJQ"), Some(RFC_SECRET.to_vec()));
}

#[test]
fn base32_lower_case_and_padding() {
    assert_eq!(base32_decode(b"jbswy3dpehpk3pxp"), Some(b"Hello!\xde\xad\xbe\xef".to_vec()));
    assert_eq!(base32_decode(b"MY======"), Some(b"f".to_vec()));
    assert_eq!(base32_decode(b"MZXW6==="), Some(b"foo".to_vec()));
    assert_eq!(base32_decode(b""), Some(vec![]));
}

#[test]
fn base32_rejects_other_characters() {
    assert_eq!(base32_decode(b"JBSWY3DP1"), None);
    assert_eq!(base32_decode(b"JBSW Y3DP"), None);
    assert_eq!(base32_decode(b"MY=A"), None);
}
