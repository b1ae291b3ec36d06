//! Rebuilds each post's tag list from its history of tag edits: the latest
//! tag text of every post wins, its `<tag>` tokens are read out of it, and each
//! token is resolved against the directory of known tags.

mod config;
mod directory;
pub mod entities;
mod event;
mod extract;
mod laws;
mod reconcile;
mod resolve;

pub use config::{destination_step, Config, DestinationStep, SetupError};
pub use directory::{directory_of, TagDirectory, TagRow};
pub use event::{
    is_tag_snapshot_type, spec_is_tag_snapshot_type, HistoryEvent, Timestamp, EDIT_TAGS,
    INITIAL_TAGS, ROLLBACK_TAGS,
};
pub use extract::{extract, open_at, tokens, tokens_upto};
pub use laws::{
    count_known, incomplete_event_ignored, is_winner, latest_event_wins, replay_concat,
    rows_match_known_tokens, tokens_hold_no_close,
};
pub use reconcile::{
    outcome, reconcile, replay, replay_from, step, Outcome, Snapshot, SnapshotMap, SnapshotStore,
};
pub use resolve::{
    known_in, resolve_post, resolved, row_for, unknown_in, unresolved, Association, Resolution,
};
