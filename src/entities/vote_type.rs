use vstd::prelude::*;

verus! {

/// A row of the `VoteType` table.
#[derive(Clone, Debug, PartialEq, Eq)]
pub struct Model {
    pub id: i8,
    pub name: String,
}

} // verus!
