use vstd::prelude::*;
use crate::error::CommonError;
use crate::text::{chars_of, is_ascii_digit, is_white_space, white_space};

verus! {

/// A named result: what `char::is_uppercase` says of a character.
pub uninterp spec fn upper_case(c: char) -> bool;

/// A named result: what `char::is_lowercase` says of a character.
pub uninterp spec fn lower_case(c: char) -> bool;

/// A named result: what `char::is_alphanumeric` says of a character.
pub uninterp spec fn alphanumeric(c: char) -> bool;

/// Relies on `char::is_uppercase`: its answer depends on the character alone.
#[verifier::external_body]
fn is_upper_case(c: char) -> (r: bool)
    ensures
        r == upper_case(c),
{
    c.is_uppercase()
}

/// Relies on `char::is_lowercase`: its answer depends on the character alone.
#[verifier::external_body]
fn is_lower_case(c: char) -> (r: bool)
    ensures
        r == lower_case(c),
{
    c.is_lowercase()
}

/// Relies on `char::is_alphanumeric`: its answer depends on the character alone.
#[verifier::external_body]
fn is_alphanumeric(c: char) -> (r: bool)
    ensures
        r == alphanumeric(c),
{
    c.is_alphanumeric()
}

/// A special character: neither alphanumeric nor white space.
pub open spec fn special(c: char) -> bool {
    !alphanumeric(c) && !white_space(c)
}

/// The password policy: at least 12 characters, with an upper-case letter,
/// a lower-case letter, an ASCII digit and a special character.
pub open spec fn password_ok(s: Seq<char>) -> bool {
    &&& s.len() >= 12
    &&& exists|i: int| 0 <= i < s.len() && upper_case(#[trigger] s[i])
    &&& exists|i: int| 0 <= i < s.len() && lower_case(#[trigger] s[i])
    &&& exists|i: int| 0 <= i < s.len() && is_ascii_digit(#[trigger] s[i])
    &&& exists|i: int| 0 <= i < s.len() && special(#[trigger] s[i])
}

/// Checks a new master password against the policy (`password_ok`).
pub fn validate_password(password: &str) -> (r: Result<(), CommonError>)
    ensures
        r is Ok <==> password_ok(password@),
        r matches Err(e) ==> e == CommonError::InvalidPassword,
{
    let v = chars_of(password);
    if v.len() < 12 {
        return Err(CommonError::InvalidPassword);
    }
    let mut upper = false;
    let mut lower = false;
    let mut digit = false;
    let mut spec_char = false;
    let mut i: usize = 0;
    while i < v.len()
        invariant
            i <= v.len(),
            v@ == password@,
            upper <==> exists|k: int| 0 <= k < i && upper_case(#[trigger] v@[k]),
            lower <==> exists|k: int| 0 <= k < i && lower_case(#[trigger] v@[k]),
            digit <==> exists|k: int| 0 <= k < i && is_ascii_digit(#[trigger] v@[k]),
            spec_char <==> exists|k: int| 0 <= k < i && special(#[trigger] v@[k]),
        decreases v.len() - i,
    {
        let c = v[i];
        if is_upper_case(c) {
            upper = true;
        }
        if is_lower_case(c) {
            lower = true;
        }
        if '0' <= c && c <= '9' {
            digit = true;
        }
        if !is_alphanumeric(c) && !is_white_space(c) {
            spec_char = true;
        }
        assert(v@[i as int] == c);
        i = i + 1;
    }
    if upper && lower && digit && spec_char {
        Ok(())
    } else {
        Err(CommonError::InvalidPassword)
    }
}

} // verus!
