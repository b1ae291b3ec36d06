use vstd::prelude::*;

verus! {

/// History type of the event that sets a post's first tag list.
pub const INITIAL_TAGS: i8 = 3;

/// History type of an ordinary edit of a post's tag list.
pub const EDIT_TAGS: i8 = 6;

/// History type of a rollback that restores an earlier tag list.
pub const ROLLBACK_TAGS: i8 = 9;

/// Whether a history type carries a full tag-text snapshot.
pub open spec fn spec_is_tag_snapshot_type(type_id: i8) -> bool {
    type_id == INITIAL_TAGS || type_id == EDIT_TAGS || type_id == ROLLBACK_TAGS
}

/// Whether a history type carries a full tag-text snapshot.
pub fn is_tag_snapshot_type(type_id: i8) -> (r: bool)
    ensures
        r == spec_is_tag_snapshot_type(type_id),
{
    type_id == INITIAL_TAGS || type_id == EDIT_TAGS || type_id == ROLLBACK_TAGS
}

/// A point in time without a zone: whole seconds from the epoch and the
/// nanoseconds within that second (above a billion only inside a leap second).
#[derive(Clone, Copy, Debug, PartialEq, Eq, Structural)]
pub struct Timestamp {
    pub secs: i64,
    pub nanos: u32,
}

impl Timestamp {
    /// `self` lies strictly later than `other`.
    pub open spec fn spec_is_after(self, other: Timestamp) -> bool {
        self.secs > other.secs || (self.secs == other.secs && self.nanos > other.nanos)
    }

    /// `self` lies strictly later than `other`.
    pub fn is_after(&self, other: &Timestamp) -> (r: bool)
        ensures
            r == self.spec_is_after(*other),
    {
        self.secs > other.secs || (self.secs == other.secs && self.nanos > other.nanos)
    }
}

/// One row of the post history, reduced to what the tag rebuild reads.
pub struct HistoryEvent {
    pub id: i32,
    pub post_id: i32,
    pub type_id: i8,
    pub creation_date: Option<Timestamp>,
    pub text: Option<String>,
}

impl HistoryEvent {
    /// The event may set a snapshot: it is of a snapshot type and has both a date and a text.
    pub open spec fn is_usable(&self) -> bool {
        spec_is_tag_snapshot_type(self.type_id) && self.creation_date is Some && self.text is Some
    }

    /// The event is usable and concerns post `post_id`.
    pub open spec fn is_usable_for(&self, post_id: i32) -> bool {
        self.is_usable() && self.post_id == post_id
    }

    pub open spec fn time(&self) -> Timestamp {
        self.creation_date->0
    }

    pub open spec fn text_view(&self) -> Seq<char> {
        self.text->0@
    }
}

} // verus!
