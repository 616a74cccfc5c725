use vstd::prelude::*;
use crate::might::Might;
use crate::tag::Tag;

verus! {

/// A named grouping of power and weakness tags, with the bookkeeping a
/// character sheet carries for it.
#[derive(Debug, Clone)]
pub struct Theme {
    pub name: String,
    pub power_tags: Vec<Tag>,
    pub weakness_tags: Vec<Tag>,
    pub might: Might,
    pub quest: String,
    pub improve: u8,
    pub abandon: u8,
    pub milestone: u8,
    pub special_improvements: Vec<String>,
}

impl Theme {
    /// A theme contributes the fixed placeholder value 1 to a roll; it does
    /// not yet aggregate the values of its own tags.
    pub open spec fn value_spec(&self) -> int {
        1
    }

    pub fn get_value(&self) -> (r: u8)
        ensures
            r as int == self.value_spec(),
    {
        1
    }
}

} // verus!
