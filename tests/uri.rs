use xauthenticator::uri::{parse_otpauth, percent_decode, OtpUriError};

#[test]
fn parses_example_totp_uri() {
    let p = parse_otpauth("otpauth://totp/Example:alice@example.com?secret=JBSWY3DPEHPK3PXP&issuer=Example")
        .expect("a descriptor");
    assert_eq!(p.issuer, "Example");
    assert_eq!(p.label, "alice@example.com");
    assert_eq!(p.type_, "TOTP");
    assert_eq!(p.period, Some(30));
    assert_eq!(p.counter, None);
    assert_eq!(p.digits, 6);
    assert_eq!(p.algorithm, "SHA1");
    assert_eq!(p.secret, vec![0x48, 0x65, 0x6c, 0x6c, 0x6f, 0x21, 0xde, 0xad, 0xbe, 0xef]);
}

#[test]
fn missing_secret_gives_no_descriptor() {
    assert_eq!(parse_otpauth("otpauth://totp/Example:alice@example.com?issuer=Example").err(), Some(OtpUriError::MissingSecret));
    assert_eq!(parse_otpauth("otpauth://totp/Example:alice@example.com").err(), Some(OtpUriError::MissingSecret));
}

#[test]
fn other_schemes_are_refused() {
    assert_eq!(parse_otpauth("https://totp/x?secret=AAAA").err(), Some(OtpUriError::NotOtpauth));
    assert_eq!(parse_otpauth("otpauth:/totp/x?secret=AAAA").err(), Some(OtpUriError::NotOtpauth));
    assert_eq!(parse_otpauth("otpauth://totp").err(), Some(OtpUriError::NotOtpauth));
    assert_eq!(parse_otpauth("").err(), Some(OtpUriError::NotOtpauth));
}

#[test]
fn secret_that_is_not_base32_is_reported() {
    assert_eq!(parse_otpauth("otpauth://totp/x?secret=not*base32").err(), Some(OtpUriError::InvalidSecret));
    assert_eq!(parse_otpauth("otpauth://totp/x?secret=1234").err(), Some(OtpUriError::InvalidSecret));
}

#[test]
fn scheme_is_case_insensitive() {
    let p = parse_otpauth("OTPAUTH://TOTP/x?secret=AAAA").expect("a descriptor");
    assert_eq!(p.type_, "TOTP");
    assert_eq!(p.label, "x");
}

#[test]
fn hotp_with_parameters() {
    let p = parse_otpauth("otpauth://HOTP/Acme%20Co:bob?SECRET=GEZDGNBV&algorithm=sha256&digits=8&counter=5&period=60")
        .expect("a descriptor");
    assert_eq!(p.type_, "HOTP");
    assert_eq!(p.issuer, "Acme Co");
    assert_eq!(p.label, "bob");
    assert_eq!(p.algorithm, "SHA256");
    assert_eq!(p.digits, 8);
    assert_eq!(p.counter, Some(5));
    assert_eq!(p.period, None);
    assert_eq!(p.secret, b"12345".to_vec());
}

#[test]
fn unknown_type_defaults_to_totp() {
    let p = parse_otpauth("otpauth://steam/x?secret=AAAA&counter=3").expect("a descriptor");
    assert_eq!(p.type_, "TOTP");
    assert_eq!(p.period, Some(30));
    assert_eq!(p.counter, None);
}

#[test]
fn issuer_parameter_overrides_label_prefix_unless_empty() {
    let p = parse_otpauth("otpauth://totp/Label:me?secret=AA&issuer=Param").unwrap();
    assert_eq!(p.issuer, "Param");
    let q = parse_otpauth("otpauth://totp/Label:me?secret=AA&issuer=").unwrap();
    assert_eq!(q.issuer, "Label");
    let r = parse_otpauth("otpauth://totp/me?secret=AA").unwrap();
    assert_eq!(r.issuer, "");
    assert_eq!(r.label, "me");
}

#[test]
fn label_parts_are_trimmed() {
    let p = parse_otpauth("otpauth://totp/%20Big%20Bank%20:%20%20me%40x.org%20?secret=AA").unwrap();
    assert_eq!(p.issuer, "Big Bank");
    assert_eq!(p.label, "me@x.org");
}

#[test]
fn bad_numbers_fall_back_to_defaults() {
    let p = parse_otpauth("otpauth://totp/x?secret=AA&digits=abc&period=99999999999").unwrap();
    assert_eq!(p.digits, 6);
    assert_eq!(p.period, Some(30));
    let q = parse_otpauth("otpauth://totp/x?secret=AA&digits=%2B7&period=-5").unwrap();
    assert_eq!(q.digits, 7);
    assert_eq!(q.period, Some(-5));
}

#[test]
fn last_repeated_parameter_wins_and_empty_pairs_are_skipped() {
    let p = parse_otpauth("otpauth://totp/x?secret=AA&&secret=MZXW6===&digits=7&digits=8&").unwrap();
    assert_eq!(p.secret, b"foo".to_vec());
    assert_eq!(p.digits, 8);
}

#[test]
fn secret_value_is_percent_decoded() {
    let p = parse_otpauth("otpauth://totp/x?secret=MZ%58W6%3D%3D%3D").unwrap();
    assert_eq!(p.secret, b"foo".to_vec());
}

#[test]
fn percent_decoding() {
    assert_eq!(percent_decode("a%41b"), "aAb");
    assert_eq!(percent_decode("a+b"), "a b");
    assert_eq!(percent_decode("%7e%7E"), "~~");
    assert_eq!(percent_decode("100%"), "100%");
    assert_eq!(percent_decode("%4"), "%4");
    assert_eq!(percent_decode("%zz!"), "%zz!");
    assert_eq!(percent_decode("%%41"), "%A");
    assert_eq!(percent_decode(""), "");
    assert_eq!(percent_decode("caf\u{e9}"), "caf\u{e9}");
}

#[test]
fn plus_in_a_value_is_a_space() {
    let p = parse_otpauth("otpauth://totp/x?secret=AA&digits=+7").unwrap();
    assert_eq!(p.digits, 6);
}
