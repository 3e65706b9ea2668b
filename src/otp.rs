use vstd::prelude::*;
use hmac::Mac;
use crate::text::{chars_of, lower_equals, lower_seq, push_char};

verus! {

/// The hash function under the HMAC of a one-time password.
#[derive(Debug, Clone, Copy, PartialEq, Eq, Structural)]
pub enum Algorithm {
    Sha1,
    Sha256,
    Sha512,
}

/// `SHA256` and `SHA512` (in any ASCII case) select those; every other name
/// falls back to SHA-1.
pub open spec fn algorithm_of(name: Seq<char>) -> Algorithm {
    if lower_seq(name) == "sha256"@ {
        Algorithm::Sha256
    } else if lower_seq(name) == "sha512"@ {
        Algorithm::Sha512
    } else {
        Algorithm::Sha1
    }
}

impl Algorithm {
    pub fn from_name(name: &str) -> (r: Algorithm)
        ensures
            r == algorithm_of(name@),
    {
        let v = chars_of(name);
        assert(v@.subrange(0, v.len() as int) =~= name@);
        if lower_equals(&v, 0, v.len(), "sha256") {
            Algorithm::Sha256
        } else if lower_equals(&v, 0, v.len(), "sha512") {
            Algorithm::Sha512
        } else {
            Algorithm::Sha1
        }
    }
}

/// A named result: HMAC-SHA-1 of `msg` under `key`.
pub uninterp spec fn hmac_sha1_of(key: Seq<u8>, msg: Seq<u8>) -> Seq<u8>;

/// A named result: HMAC-SHA-256 of `msg` under `key`.
pub uninterp spec fn hmac_sha256_of(key: Seq<u8>, msg: Seq<u8>) -> Seq<u8>;

/// A named result: HMAC-SHA-512 of `msg` under `key`.
pub uninterp spec fn hmac_sha512_of(key: Seq<u8>, msg: Seq<u8>) -> Seq<u8>;

/// Relies on `hmac::Hmac<sha1::Sha1>`: `new_from_slice` accepts a key of any
/// length (HMAC hashes a long key and pads a short one), and the tag is the
/// 20-byte SHA-1 output.
#[verifier::external_body]
fn hmac_sha1(key: &[u8], msg: &[u8]) -> (r: Option<Vec<u8>>)
    ensures
        r is Some,
        r matches Some(t) ==> t@ == hmac_sha1_of(key@, msg@) && t@.len() == 20,
{
    match hmac::Hmac::<sha1::Sha1>::new_from_slice(key) {
        Ok(mut m) => {
            m.update(msg);
            Some(m.finalize().into_bytes().to_vec())
        },
        Err(_) => None,
    }
}

/// Relies on `hmac::Hmac<sha2::Sha256>`: `new_from_slice` accepts a key of
/// any length, and the tag is the 32-byte SHA-256 output.
#[verifier::external_body]
fn hmac_sha256(key: &[u8], msg: &[u8]) -> (r: Option<Vec<u8>>)
    ensures
        r is Some,
        r matches Some(t) ==> t@ == hmac_sha256_of(key@, msg@) && t@.len() == 32,
{
    match hmac::Hmac::<sha2::Sha256>::new_from_slice(key) {
        Ok(mut m) => {
            m.update(msg);
            Some(m.finalize().into_bytes().to_vec())
        },
        Err(_) => None,
    }
}

/// Relies on `hmac::Hmac<sha2::Sha512>`: `new_from_slice` accepts a key of
/// any length, and the tag is the 64-byte SHA-512 output.
#[verifier::external_body]
fn hmac_sha512(key: &[u8], msg: &[u8]) -> (r: Option<Vec<u8>>)
    ensures
        r is Some,
        r matches Some(t) ==> t@ == hmac_sha512_of(key@, msg@) && t@.len() == 64,
{
    match hmac::Hmac::<sha2::Sha512>::new_from_slice(key) {
        Ok(mut m) => {
            m.update(msg);
            Some(m.finalize().into_bytes().to_vec())
        },
        Err(_) => None,
    }
}

pub open spec fn mac_of(alg: Algorithm, key: Seq<u8>, msg: Seq<u8>) -> Seq<u8> {
    match alg {
        Algorithm::Sha1 => hmac_sha1_of(key, msg),
        Algorithm::Sha256 => hmac_sha256_of(key, msg),
        Algorithm::Sha512 => hmac_sha512_of(key, msg),
    }
}

/// Computes the HMAC that `alg` selects.
pub fn mac(alg: Algorithm, key: &[u8], msg: &[u8]) -> (r: Vec<u8>)
    ensures
        r@ == mac_of(alg, key@, msg@),
        r@.len() >= 20,
{
    let t = match alg {
        Algorithm::Sha1 => hmac_sha1(key, msg),
        Algorithm::Sha256 => hmac_sha256(key, msg),
        Algorithm::Sha512 => hmac_sha512(key, msg),
    };
    match t {
        Some(t) => t,
        None => {
            proof {
                assert(false);
            }
            Vec::new()
        },
    }
}

pub open spec fn pow10(n: nat) -> nat
    decreases n,
{
    if n == 0 {
        1
    } else {
        10 * pow10((n - 1) as nat)
    }
}

pub open spec fn pow256(n: nat) -> nat
    decreases n,
{
    if n == 0 {
        1
    } else {
        256 * pow256((n - 1) as nat)
    }
}

/// The eight bytes of `n`, most significant first.
pub open spec fn be_bytes(n: u64) -> Seq<u8> {
    Seq::new(8, |i: int| ((n as nat / pow256((7 - i) as nat)) % 256) as u8)
}

/// RFC 4226 dynamic truncation: the low nibble of the last byte picks an
/// offset, and the four bytes there, top bit cleared, give a 31-bit number.
pub open spec fn truncated(mac: Seq<u8>) -> nat {
    let o = (mac.last() % 16) as int;
    (mac[o] % 128) as nat * 16777216 + mac[o + 1] as nat * 65536 + mac[o + 2] as nat * 256
        + mac[o + 3] as nat
}

pub open spec fn digit_char(d: nat) -> char {
    ((48 + d) as u8) as char
}

/// `v` in decimal, in exactly `width` digits: zero-padded on the left (and
/// cut to its last `width` digits).
pub open spec fn padded_decimal(v: nat, width: nat) -> Seq<char> {
    Seq::new(width, |k: int| digit_char((v / pow10((width - 1 - k) as nat)) % 10))
}

/// The code of an HMAC tag: the truncated number modulo 10^digits, written
/// in `digits` digits.
pub open spec fn code_of_mac(mac: Seq<u8>, digits: nat) -> Seq<char> {
    padded_decimal(truncated(mac) % pow10(digits), digits)
}

/// The HOTP code of `secret` at `counter`.
pub open spec fn hotp_spec(secret: Seq<u8>, counter: u64, digits: nat, alg: Algorithm) -> Seq<char> {
    code_of_mac(mac_of(alg, secret, be_bytes(counter)), digits)
}

/// The TOTP code of `secret` at Unix time `at_time`.
pub open spec fn totp_spec(secret: Seq<u8>, period: u64, digits: nat, alg: Algorithm, at_time: u64) -> Seq<char>
    recommends
        period > 0,
{
    hotp_spec(secret, (at_time / period) as u64, digits, alg)
}

proof fn lemma_pow10_grows(n: nat, m: nat)
    requires
        n <= m,
    ensures
        1 <= pow10(n) <= pow10(m),
    decreases m,
{
    if n < m {
        lemma_pow10_grows(n, (m - 1) as nat);
    } else if n > 0 {
        lemma_pow10_grows((n - 1) as nat, (n - 1) as nat);
    }
}

proof fn lemma_pow10_facts(n: nat)
    ensures
        pow10(n) >= 1,
        n <= 10 ==> pow10(n) <= 10000000000,
        pow10(n + 1) / 10 == pow10(n),
{
    reveal_with_fuel(pow10, 11);
    if n <= 10 {
        lemma_pow10_grows(n, 10);
    }
    lemma_pow10_grows(n, n);
}

proof fn lemma_pow256_grows(n: nat, m: nat)
    requires
        n <= m,
    ensures
        1 <= pow256(n) <= pow256(m),
    decreases m,
{
    if n < m {
        lemma_pow256_grows(n, (m - 1) as nat);
    } else if n > 0 {
        lemma_pow256_grows((n - 1) as nat, (n - 1) as nat);
    }
}

proof fn lemma_pow256_facts(n: nat)
    ensures
        pow256(n) >= 1,
        n <= 7 ==> pow256(n) <= 72057594037927936,
        pow256(n + 1) / 256 == pow256(n),
{
    reveal_with_fuel(pow256, 8);
    if n <= 7 {
        lemma_pow256_grows(n, 7);
    }
    lemma_pow256_grows(n, n);
}

/// The eight bytes of `n`, most significant first.
pub fn counter_bytes(n: u64) -> (r: Vec<u8>)
    ensures
        r@ == be_bytes(n),
{
    let mut out: Vec<u8> = Vec::new();
    let mut p: u64 = 72057594037927936;
    let mut i: usize = 0;
    proof {
        lemma_pow256_facts(0);
        lemma_pow256_facts(1);
        lemma_pow256_facts(2);
        lemma_pow256_facts(3);
        lemma_pow256_facts(4);
        lemma_pow256_facts(5);
        lemma_pow256_facts(6);
        lemma_pow256_facts(7);
    }
    while i < 8
        invariant
            i <= 8,
            out.len() == i,
            i < 8 ==> p as nat == pow256((7 - i) as nat),
            forall|k: int| 0 <= k < i ==> out@[k] == be_bytes(n)[k],
        decreases 8 - i,
    {
        proof {
            lemma_pow256_facts((7 - i) as nat);
        }
        out.push(((n / p) % 256) as u8);
        if i < 7 {
            proof {
                lemma_pow256_facts((6 - i) as nat);
            }
            p = p / 256;
        }
        i = i + 1;
    }
    assert(out@ =~= be_bytes(n));
    out
}

/// The code that a MAC tag gives (see `code_of_mac`).
pub fn code_from_mac(mac: &[u8], digits: u32) -> (r: String)
    requires
        mac.len() >= 20,
        1 <= digits <= 10,
    ensures
        r@ == code_of_mac(mac@, digits as nat),
{
    let o = (mac[mac.len() - 1] % 16) as usize;
    let bin: u64 = (mac[o] % 128) as u64 * 16777216 + mac[o + 1] as u64 * 65536 + mac[o + 2] as u64 * 256
        + mac[o + 3] as u64;
    assert(bin == truncated(mac@));
    let mut m: u64 = 1;
    let mut e: u32 = 0;
    while e < digits
        invariant
            e <= digits <= 10,
            m as nat == pow10(e as nat),
        decreases digits - e,
    {
        proof {
            lemma_pow10_facts(e as nat);
            lemma_pow10_facts((e + 1) as nat);
        }
        m = m * 10;
        e = e + 1;
    }
    proof {
        lemma_pow10_facts(digits as nat);
    }
    let v = bin % m;
    let mut out = String::new();
    let mut p: u64 = m / 10;
    let mut k: u32 = 0;
    proof {
        lemma_pow10_facts((digits - 1) as nat);
    }
    while k < digits
        invariant
            k <= digits <= 10,
            k < digits ==> p as nat == pow10((digits - 1 - k) as nat),
            out@ == padded_decimal(v as nat, digits as nat).subrange(0, k as int),
        decreases digits - k,
    {
        proof {
            lemma_pow10_facts((digits - 1 - k) as nat);
        }
        let d = (v / p) % 10;
        let c = (48u8 + (d as u8)) as char;
        push_char(&mut out, c);
        assert(out@ =~= padded_decimal(v as nat, digits as nat).subrange(0, k + 1));
        if k + 1 < digits {
            proof {
                lemma_pow10_facts((digits - 2 - k) as nat);
            }
            p = p / 10;
        }
        k = k + 1;
    }
    assert(out@ =~= padded_decimal(v as nat, digits as nat));
    out
}

/// RFC 4226 HOTP: the code of the HMAC of the big-endian counter.
pub fn hotp(secret: &[u8], counter: u64, digits: u32, algorithm: Algorithm) -> (r: String)
    requires
        1 <= digits <= 10,
    ensures
        r@ == hotp_spec(secret@, counter, digits as nat, algorithm),
{
    let msg = counter_bytes(counter);
    let t = mac(algorithm, secret, msg.as_slice());
    code_from_mac(t.as_slice(), digits)
}

/// RFC 6238 TOTP: HOTP at the number of whole periods since the epoch.
pub fn totp(secret: &[u8], period: u64, digits: u32, algorithm: Algorithm, at_time: u64) -> (r: String)
    requires
        period > 0,
        1 <= digits <= 10,
    ensures
        r@ == totp_spec(secret@, period, digits as nat, algorithm, at_time),
{
    hotp(secret, at_time / period, digits, algorithm)
}

} // verus!
