use vstd::prelude::*;

use crate::resolve::Association;

verus! {

/// A row of the `PostTags` table. `id` is given by the database on insertion.
#[derive(Clone, Copy, Debug, PartialEq, Eq, Structural)]
pub struct Model {
    pub id: i32,
    pub post_id: i32,
    pub tag_id: i32,
}

/// The tables that `PostTags` refers to.
#[derive(Clone, Copy, Debug, PartialEq, Eq, Structural)]
pub enum Relation {
    /// Each row names a tag.
    Tags,
}

impl Model {
    /// The pair of post and tag that the row records.
    pub fn association(&self) -> (r: Association)
        ensures
            r == (Association { post_id: self.post_id, tag_id: self.tag_id }),
    {
        Association { post_id: self.post_id, tag_id: self.tag_id }
    }
}

} // verus!
