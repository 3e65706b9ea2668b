use vstd::prelude::*;
use crate::text::{chars_of, trim_range, trimmed};

verus! {

/// The version tag written to the data directory: `v` and the version.
pub fn version_tag(version: &str) -> (r: String)
    ensures
        r@ == "v"@ + version@,
{
    String::from_str("v").concat(version)
}

/// Whether the data directory must be set up again: no version was
/// recorded there, or the recorded one (without surrounding white space)
/// differs from the running one.
pub fn needs_initialization(stored: Option<&str>, current: &str) -> (r: bool)
    ensures
        r == match stored {
            None => true,
            Some(s) => trimmed(s@) != current@,
        },
{
    match stored {
        None => true,
        Some(s) => {
            let v = chars_of(s);
            assert(v@.subrange(0, v.len() as int) =~= s@);
            let t = trim_range(&v, 0, v.len());
            let c = String::from_str(current);
            !(t == c)
        },
    }
}

} // verus!
