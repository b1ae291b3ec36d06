//! Plain records of the tables that the run reads or fills.

pub mod post_history_type;
pub mod post_tags;
pub mod vote_type;
