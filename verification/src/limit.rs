use vstd::prelude::*;

verus! {

/// A named track that fills toward a maximum.
#[derive(Debug, Clone)]
pub struct Limit {
    pub name: String,
    pub progress: u8,
    pub max: u8,
}

} // verus!
