use vstd::prelude::*;

verus! {

/// The narrative weight class of a theme.
#[derive(Clone, Copy, Debug, PartialEq, Eq, Structural)]
pub enum Might {
    Origin,
    Adventure,
    Greatness,
}

} // verus!
