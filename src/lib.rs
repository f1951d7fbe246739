//! Keeps a full-text search index eventually consistent with a database by
//! draining a durable queue of change markers.
//!
//! The library holds the decisions of the engine: how a chunk of markers is
//! split by kind, which documents a reconciliation deletes and which it
//! upserts, when a sub-cycle may retire its markers, when a drain is done, and
//! how long the daemon sleeps. The caller performs the database and network
//! work that each decision asks for and reports back what happened.
mod cadence;
mod cycle;
mod laws;
mod marker;
mod reconcile;

pub use cadence::{next_sleep, sleep_after};
pub use cycle::{
    after_kind, chunk_done, failed, ids_for, initial, next, open_event, open_realm, open_upsert,
    to_removal, Action, ActionModel, Event, EventModel, Stage, SubCycle, SubCycleModel,
};
pub use laws::{
    after_sub_cycle, lemma_after_kind_leaves_index, lemma_cadence, lemma_chunk_fixed,
    lemma_chunk_termination, lemma_duplicate_collapse, lemma_empty_drain,
    lemma_failure_keeps_markers, lemma_missing_exact, lemma_reconcile_calls,
    lemma_removal_follows_success, read_chunk,
};
pub use marker::{
    ids_of, lemma_ids_of_contains, partition_by_kind, remove_markers, removed_by, EntityKind, Key,
    QueueMarker,
};
pub use reconcile::{contains_key, missing, missing_ids};
