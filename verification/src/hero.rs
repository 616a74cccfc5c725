use vstd::prelude::*;
use crate::tag::Tag;
use crate::theme::Theme;

verus! {

/// A player character: their themes and the loose tags in their backpack.
#[derive(Debug, Clone)]
pub struct Hero {
    pub name: String,
    pub player: String,
    pub themes: Vec<Theme>,
    pub backpack: Vec<Tag>,
}

} // verus!
