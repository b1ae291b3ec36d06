use vstd::prelude::*;

verus! {

/// A row of the `PostHistoryType` table: the kinds of history event.
#[derive(Clone, Debug, PartialEq, Eq)]
pub struct Model {
    pub id: i8,
    pub kind: String,
}

/// The tables that refer to `PostHistoryType`.
#[derive(Clone, Copy, Debug, PartialEq, Eq, Structural)]
pub enum Relation {
    /// Each history event names its type.
    PostHistory,
}

} // verus!
