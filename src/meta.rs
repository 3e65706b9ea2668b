use vstd::prelude::*;

verus! {

/// A key-value setting row.
#[derive(Clone, Debug, PartialEq, Eq)]
pub struct Model {
    pub key: String,
    pub value: String,
}

} // verus!
