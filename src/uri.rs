use vstd::prelude::*;
use crate::base32::{base32_decode, base32_spec};
use crate::text::{
    chars_of, find_char, find_from, lemma_find_from_bounds, lower_equals, lower_seq, parse_i32,
    parse_i32_spec, push_char, to_ascii_upper, trim_range, trimmed, upper_seq,
};

verus! {

/// An OTP credential as read from an `otpauth://` URI.
#[derive(Debug, Clone)]
pub struct ParsedOtp {
    pub issuer: String,
    pub label: String,
    pub type_: String,
    pub algorithm: String,
    pub digits: i32,
    pub period: Option<i32>,
    pub counter: Option<i32>,
    pub secret: Vec<u8>,
}

/// The mathematical content of a `ParsedOtp`.
pub struct ParsedOtpView {
    pub issuer: Seq<char>,
    pub label: Seq<char>,
    pub type_: Seq<char>,
    pub algorithm: Seq<char>,
    pub digits: i32,
    pub period: Option<i32>,
    pub counter: Option<i32>,
    pub secret: Seq<u8>,
}

impl View for ParsedOtp {
    type V = ParsedOtpView;

    open spec fn view(&self) -> ParsedOtpView {
        ParsedOtpView {
            issuer: self.issuer@,
            label: self.label@,
            type_: self.type_@,
            algorithm: self.algorithm@,
            digits: self.digits,
            period: self.period,
            counter: self.counter,
            secret: self.secret@,
        }
    }
}

pub open spec fn is_hex(c: char) -> bool {
    ('0' <= c && c <= '9') || ('a' <= c && c <= 'f') || ('A' <= c && c <= 'F')
}

pub open spec fn hex_val(c: char) -> nat {
    if '0' <= c && c <= '9' {
        ((c as u32) - ('0' as u32)) as nat
    } else if 'a' <= c && c <= 'f' {
        ((c as u32) - ('a' as u32) + 10) as nat
    } else if 'A' <= c && c <= 'F' {
        ((c as u32) - ('A' as u32) + 10) as nat
    } else {
        0
    }
}

/// Percent-decoding: `%XX` with two hex digits becomes the character with
/// that code, `+` becomes a space, and anything else (a `%` without two hex
/// digits after it included) stands for itself.
pub open spec fn decoded(s: Seq<char>) -> Seq<char>
    decreases s.len(),
{
    if s.len() == 0 {
        Seq::empty()
    } else if s[0] == '%' && s.len() >= 3 && is_hex(s[1]) && is_hex(s[2]) {
        seq![((hex_val(s[1]) * 16 + hex_val(s[2])) as u8) as char] + decoded(s.subrange(3, s.len() as int))
    } else if s[0] == '+' {
        seq![' '] + decoded(s.drop_first())
    } else {
        seq![s[0]] + decoded(s.drop_first())
    }
}

fn hex_digit(c: char) -> (r: Option<u8>)
    ensures
        match r {
            Some(d) => is_hex(c) && d as nat == hex_val(c) && d < 16,
            None => !is_hex(c),
        },
{
    if '0' <= c && c <= '9' {
        Some(((c as u32) - ('0' as u32)) as u8)
    } else if 'a' <= c && c <= 'f' {
        Some(((c as u32) - ('a' as u32) + 10) as u8)
    } else if 'A' <= c && c <= 'F' {
        Some(((c as u32) - ('A' as u32) + 10) as u8)
    } else {
        None
    }
}

/// Percent-decodes `v[from..to]`.
fn decode_range(v: &Vec<char>, from: usize, to: usize) -> (r: String)
    requires
        from <= to <= v.len(),
    ensures
        r@ == decoded(v@.subrange(from as int, to as int)),
{
    let mut out = String::new();
    let mut i = from;
    while i < to
        invariant
            from <= i <= to <= v.len(),
            out@ + decoded(v@.subrange(i as int, to as int)) == decoded(v@.subrange(from as int, to as int)),
        decreases to - i,
    {
        let ghost rest = v@.subrange(i as int, to as int);
        let c = v[i];
        if c == '%' && to - i >= 3 {
            let hi = hex_digit(v[i + 1]);
            let lo = hex_digit(v[i + 2]);
            if let (Some(h), Some(l)) = (hi, lo) {
                let ch = (h * 16 + l) as char;
                assert(rest.subrange(3, rest.len() as int) =~= v@.subrange(i + 3, to as int));
                assert(decoded(rest) == seq![ch] + decoded(v@.subrange(i + 3, to as int)));
                push_char(&mut out, ch);
                assert(out@ + decoded(v@.subrange(i + 3, to as int)) =~= (out@.drop_last() + seq![ch]) + decoded(v@.subrange(i + 3, to as int)));
                i = i + 3;
                continue;
            }
        }
        let ch = if c == '+' { ' ' } else { c };
        assert(rest.drop_first() =~= v@.subrange(i + 1, to as int));
        assert(decoded(rest) == seq![ch] + decoded(v@.subrange(i + 1, to as int)));
        push_char(&mut out, ch);
        assert(out@ + decoded(v@.subrange(i + 1, to as int)) =~= (out@.drop_last() + seq![ch]) + decoded(v@.subrange(i + 1, to as int)));
        i = i + 1;
    }
    assert(decoded(v@.subrange(to as int, to as int)) =~= Seq::<char>::empty());
    assert(out@ + Seq::<char>::empty() =~= out@);
    out
}

/// Percent-decodes a URI component (see `decoded`).
pub fn percent_decode(input: &str) -> (r: String)
    ensures
        r@ == decoded(input@),
{
    let v = chars_of(input);
    assert(v@.subrange(0, v.len() as int) =~= input@);
    decode_range(&v, 0, v.len())
}

} // verus!

verus! {

/// The pieces of `s` between occurrences of `sep` (one piece when `sep`
/// does not occur; empty pieces kept).
pub open spec fn split_on(s: Seq<char>, sep: char) -> Seq<Seq<char>>
    decreases s.len(),
{
    if s.len() == 0 {
        seq![Seq::empty()]
    } else {
        let parts = split_on(s.drop_last(), sep);
        if s.last() == sep {
            parts.push(Seq::empty())
        } else {
            parts.update(parts.len() - 1, parts.last().push(s.last()))
        }
    }
}

proof fn lemma_split_on_nonempty(s: Seq<char>, sep: char)
    ensures
        split_on(s, sep).len() >= 1,
    decreases s.len(),
{
    if s.len() > 0 {
        lemma_split_on_nonempty(s.drop_last(), sep);
    }
}

/// The name of a `name=value` pair: all of it when it holds no `=`.
pub open spec fn key_of(p: Seq<char>) -> Seq<char> {
    match find_from(p, '=', 0) {
        Some(k) => p.subrange(0, k),
        None => p,
    }
}

/// The raw value of a `name=value` pair: empty when it holds no `=`.
pub open spec fn value_of(p: Seq<char>) -> Seq<char> {
    match find_from(p, '=', 0) {
        Some(k) => p.subrange(k + 1, p.len() as int),
        None => Seq::empty(),
    }
}

/// The decoded value of the last non-empty pair whose name, lower-cased,
/// is `name`.
pub open spec fn param_in(pairs: Seq<Seq<char>>, name: Seq<char>) -> Option<Seq<char>>
    decreases pairs.len(),
{
    if pairs.len() == 0 {
        None
    } else if pairs.last().len() > 0 && lower_seq(key_of(pairs.last())) == name {
        Some(decoded(value_of(pairs.last())))
    } else {
        param_in(pairs.drop_last(), name)
    }
}

/// The pieces of a query, as index ranges into the characters of the URI.
spec fn pieces(v: Seq<char>, ranges: Seq<(usize, usize)>) -> Seq<Seq<char>> {
    ranges.map_values(|r: (usize, usize)| v.subrange(r.0 as int, r.1 as int))
}

/// Splits `v[from..to]` at each `&`.
fn split_query(v: &Vec<char>, from: usize, to: usize) -> (r: Vec<(usize, usize)>)
    requires
        from <= to <= v.len(),
    ensures
        pieces(v@, r@) == split_on(v@.subrange(from as int, to as int), '&'),
        forall|k: int| 0 <= k < r.len() ==> from <= (#[trigger] r@[k]).0 <= r@[k].1 <= to,
{
    let mut ranges: Vec<(usize, usize)> = Vec::new();
    let mut start = from;
    let mut i = from;
    assert(v@.subrange(from as int, from as int) =~= Seq::<char>::empty());
    assert(pieces(v@, ranges@).push(v@.subrange(start as int, i as int)) =~= seq![Seq::<char>::empty()]);
    while i < to
        invariant
            from <= start <= i <= to <= v.len(),
            pieces(v@, ranges@).push(v@.subrange(start as int, i as int)) == split_on(v@.subrange(from as int, i as int), '&'),
            forall|k: int| 0 <= k < ranges.len() ==> from <= (#[trigger] ranges@[k]).0 <= ranges@[k].1 <= to,
        decreases to - i,
    {
        let ghost prev = v@.subrange(from as int, i as int);
        let ghost next = v@.subrange(from as int, i + 1);
        assert(next.drop_last() =~= prev);
        assert(next.last() == v@[i as int]);
        proof {
            lemma_split_on_nonempty(prev, '&');
        }
        if v[i] == '&' {
            ranges.push((start, i));
            start = i + 1;
            assert(pieces(v@, ranges@) =~= pieces(v@, ranges@.drop_last()).push(v@.subrange(ranges@.last().0 as int, i as int)));
            assert(v@.subrange(start as int, i + 1) =~= Seq::<char>::empty());
        } else {
            assert(v@.subrange(start as int, i + 1) =~= v@.subrange(start as int, i as int).push(v@[i as int]));
            assert(pieces(v@, ranges@).push(v@.subrange(start as int, i + 1)) =~= split_on(prev, '&').update(
                split_on(prev, '&').len() - 1,
                split_on(prev, '&').last().push(v@[i as int]),
            ));
        }
        i = i + 1;
    }
    ranges.push((start, to));
    assert(pieces(v@, ranges@) =~= pieces(v@, ranges@.drop_last()).push(v@.subrange(start as int, to as int)));
    ranges
}

/// Looks a query parameter up (see `param_in`); `lit` is the lower-case name.
fn lookup(v: &Vec<char>, ranges: &Vec<(usize, usize)>, lit: &str) -> (r: Option<String>)
    requires
        forall|k: int| 0 <= k < ranges.len() ==> (#[trigger] ranges@[k]).0 <= ranges@[k].1 <= v.len(),
    ensures
        match r {
            Some(s) => param_in(pieces(v@, ranges@), lit@) == Some(s@),
            None => param_in(pieces(v@, ranges@), lit@) is None,
        },
{
    let ghost all = pieces(v@, ranges@);
    let mut j = ranges.len();
    assert(all.subrange(0, j as int) =~= all);
    while j > 0
        invariant
            j <= ranges.len(),
            all == pieces(v@, ranges@),
            forall|k: int| 0 <= k < ranges.len() ==> (#[trigger] ranges@[k]).0 <= ranges@[k].1 <= v.len(),
            param_in(all, lit@) == param_in(all.subrange(0, j as int), lit@),
        decreases j,
    {
        let (a, b) = ranges[j - 1];
        let ghost part = v@.subrange(a as int, b as int);
        let ghost sub = all.subrange(0, j as int);
        assert(sub.last() == part);
        assert(sub.drop_last() =~= all.subrange(0, j - 1));
        if a < b {
            let eq = find_char(v, a, b, '=');
            proof {
                lemma_find_from_bounds(part, '=', 0);
            }
            let key_end = match eq {
                Some(k) => k,
                None => b,
            };
            assert(v@.subrange(a as int, key_end as int) =~= key_of(part));
            if lower_equals(v, a, key_end, lit) {
                let val = match eq {
                    Some(k) => {
                        assert(v@.subrange(k + 1, b as int) =~= value_of(part));
                        decode_range(v, k + 1, b)
                    },
                    None => {
                        assert(v@.subrange(b as int, b as int) =~= value_of(part));
                        decode_range(v, b, b)
                    },
                };
                return Some(val);
            }
        }
        j = j - 1;
    }
    None
}

/// Why a URI gives no descriptor.
#[derive(Debug, Clone, Copy, PartialEq, Eq, Structural)]
pub enum OtpUriError {
    /// Not `otpauth://` followed by a `/`.
    NotOtpauth,
    /// No `secret` parameter.
    MissingSecret,
    /// A `secret` that is not Base32.
    InvalidSecret,
}

/// What `parse_otpauth` gives for the characters of a URI.
pub open spec fn otpauth_spec(u: Seq<char>) -> Result<ParsedOtpView, OtpUriError> {
    if !(u.len() >= 10 && lower_seq(u.subrange(0, 10)) == "otpauth://"@) {
        Err(OtpUriError::NotOtpauth)
    } else {
        let rest = u.subrange(10, u.len() as int);
        match find_from(rest, '/', 0) {
            None => Err(OtpUriError::NotOtpauth),
            Some(sl) => {
                let typ_raw = rest.subrange(0, sl);
                let rem = rest.subrange(sl + 1, rest.len() as int);
                let label_raw = match find_from(rem, '?', 0) {
                    Some(q) => rem.subrange(0, q),
                    None => rem,
                };
                let query = match find_from(rem, '?', 0) {
                    Some(q) => rem.subrange(q + 1, rem.len() as int),
                    None => Seq::empty(),
                };
                let ld = decoded(label_raw);
                let from_label = match find_from(ld, ':', 0) {
                    Some(p) => trimmed(ld.subrange(0, p)),
                    None => Seq::empty(),
                };
                let label = match find_from(ld, ':', 0) {
                    Some(p) => trimmed(ld.subrange(p + 1, ld.len() as int)),
                    None => trimmed(ld),
                };
                let pairs = split_on(query, '&');
                let hotp = lower_seq(typ_raw) == "hotp"@;
                match param_in(pairs, "secret"@) {
                    None => Err(OtpUriError::MissingSecret),
                    Some(text) => match base32_spec(vstd::utf8::encode_utf8(text)) {
                    None => Err(OtpUriError::InvalidSecret),
                    Some(secret) => Ok(ParsedOtpView {
                        issuer: match param_in(pairs, "issuer"@) {
                            Some(i) => if i.len() > 0 { i } else { from_label },
                            None => from_label,
                        },
                        label: label,
                        type_: if hotp { "HOTP"@ } else { "TOTP"@ },
                        algorithm: match param_in(pairs, "algorithm"@) {
                            Some(a) => upper_seq(a),
                            None => "SHA1"@,
                        },
                        digits: number_or(param_in(pairs, "digits"@), 6),
                        period: if hotp { None } else { Some(number_or(param_in(pairs, "period"@), 30)) },
                        counter: if hotp { Some(number_or(param_in(pairs, "counter"@), 0)) } else { None },
                        secret: secret,
                    }),
                    },
                }
            },
        }
    }
}

/// The number a parameter holds, or `default` when it is absent or not a number.
pub open spec fn number_or(p: Option<Seq<char>>, default: i32) -> i32 {
    match p {
        Some(s) => match parse_i32_spec(s) {
            Some(n) => n,
            None => default,
        },
        None => default,
    }
}

fn number_param(v: &Vec<char>, ranges: &Vec<(usize, usize)>, lit: &str, default: i32) -> (r: i32)
    requires
        forall|k: int| 0 <= k < ranges.len() ==> (#[trigger] ranges@[k]).0 <= ranges@[k].1 <= v.len(),
    ensures
        r == number_or(param_in(pieces(v@, ranges@), lit@), default),
{
    match lookup(v, ranges, lit) {
        Some(s) => {
            let c = chars_of(s.as_str());
            assert(c@.subrange(0, c.len() as int) =~= s@);
            match parse_i32(&c, 0, c.len()) {
                Some(n) => n,
                None => default,
            }
        },
        None => default,
    }
}

fn upper_string(s: &String) -> (r: String)
    ensures
        r@ == upper_seq(s@),
{
    let c = chars_of(s.as_str());
    let mut out = String::new();
    let mut i: usize = 0;
    while i < c.len()
        invariant
            i <= c.len(),
            c@ == s@,
            out@ == upper_seq(c@.subrange(0, i as int)),
        decreases c.len() - i,
    {
        push_char(&mut out, to_ascii_upper(c[i]));
        assert(upper_seq(c@.subrange(0, i + 1)) =~= upper_seq(c@.subrange(0, i as int)).push(
            crate::text::upper_char(c@[i as int]),
        ));
        i = i + 1;
    }
    assert(c@.subrange(0, c.len() as int) =~= c@);
    out
}

/// Reads an `otpauth://TYPE/LABEL?PARAMS` URI; the secret comes out
/// Base32-decoded. Gives no descriptor when the scheme (compared without
/// regard to ASCII case) is not `otpauth://` or no `/` follows it, when no
/// `secret` parameter is present, or when the secret is not Base32.
pub fn parse_otpauth(auth_url: &str) -> (r: Result<ParsedOtp, OtpUriError>)
    ensures
        match r {
            Ok(p) => otpauth_spec(auth_url@) == Ok::<ParsedOtpView, OtpUriError>(p@),
            Err(e) => otpauth_spec(auth_url@) == Err::<ParsedOtpView, OtpUriError>(e),
        },
{
    let v = chars_of(auth_url);
    let n = v.len();
    if n < 10 || !lower_equals(&v, 0, 10, "otpauth://") {
        return Err(OtpUriError::NotOtpauth);
    }
    let ghost u = v@;
    let ghost rest = u.subrange(10, n as int);
    let slash = match find_char(&v, 10, n, '/') {
        Some(k) => k,
        None => {
            return Err(OtpUriError::NotOtpauth);
        },
    };
    proof {
        lemma_find_from_bounds(rest, '/', 0);
    }
    assert(rest.subrange(0, slash - 10) =~= u.subrange(10, slash as int));
    assert(rest.subrange(slash - 10 + 1, rest.len() as int) =~= u.subrange(slash + 1, n as int));
    let ghost rem = u.subrange(slash + 1, n as int);
    let qpos = find_char(&v, slash + 1, n, '?');
    proof {
        lemma_find_from_bounds(rem, '?', 0);
    }
    let (label_end, query_start) = match qpos {
        Some(q) => (q, q + 1),
        None => (n, n),
    };
    assert(v@.subrange(slash + 1, label_end as int) =~= (match find_from(rem, '?', 0) {
        Some(q) => rem.subrange(0, q),
        None => rem,
    }));
    assert(v@.subrange(query_start as int, n as int) =~= (match find_from(rem, '?', 0) {
        Some(q) => rem.subrange(q + 1, rem.len() as int),
        None => Seq::<char>::empty(),
    }));
    let label_decoded = decode_range(&v, slash + 1, label_end);
    let ld = chars_of(label_decoded.as_str());
    let colon = find_char(&ld, 0, ld.len(), ':');
    assert(ld@.subrange(0, ld.len() as int) =~= ld@);
    proof {
        lemma_find_from_bounds(ld@, ':', 0);
    }
    let (issuer_from_label, label) = match colon {
        Some(p) => {
            let iss = trim_range(&ld, 0, p);
            let lab = trim_range(&ld, p + 1, ld.len());
            (iss, lab)
        },
        None => (String::new(), trim_range(&ld, 0, ld.len())),
    };
    let ranges = split_query(&v, query_start, n);
    let secret_text = match lookup(&v, &ranges, "secret") {
        Some(s) => s,
        None => {
            return Err(OtpUriError::MissingSecret);
        },
    };
    let secret = match base32_decode(secret_text.as_str().as_bytes()) {
        Some(b) => b,
        None => {
            return Err(OtpUriError::InvalidSecret);
        },
    };
    let issuer = match lookup(&v, &ranges, "issuer") {
        Some(i) => if !i.as_str().is_empty() { i } else { issuer_from_label },
        None => issuer_from_label,
    };
    let algorithm = match lookup(&v, &ranges, "algorithm") {
        Some(a) => upper_string(&a),
        None => String::from_str("SHA1"),
    };
    let digits = number_param(&v, &ranges, "digits", 6);
    let hotp = lower_equals(&v, 10, slash, "hotp");
    let type_ = if hotp { String::from_str("HOTP") } else { String::from_str("TOTP") };
    let period = if hotp { None } else { Some(number_param(&v, &ranges, "period", 30)) };
    let counter = if hotp { Some(number_param(&v, &ranges, "counter", 0)) } else { None };
    Ok(ParsedOtp {
        issuer,
        label,
        type_,
        algorithm,
        digits,
        period,
        counter,
        secret,
    })
}

} // verus!
