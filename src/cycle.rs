use vstd::prelude::*;
use crate::marker::{EntityKind, Key, QueueMarker, ids_of, partition_by_kind};
use crate::reconcile::{missing, missing_ids};

verus! {

/// Where a sub-cycle stands: what it has asked the caller to do and is now
/// waiting for.
#[derive(Clone, Copy, Debug, PartialEq, Eq, Structural)]
pub enum Stage {
    /// Waiting for the oldest chunk of markers.
    Reading,
    /// Waiting for the entities of `kind` that still exist.
    Loading { kind: EntityKind },
    /// Waiting for the index of `kind` to accept a deletion.
    DeletingDocuments { kind: EntityKind },
    /// Waiting for the index of `kind` to accept an upsert.
    Upserting { kind: EntityKind },
    /// Waiting for the markers that were read to be deleted from the queue.
    RemovingMarkers,
    /// Over; `done` tells whether the queue is drained.
    Finished { done: bool },
    /// Aborted; no marker of this sub-cycle was deleted.
    Failed,
}

/// What the caller reports after carrying out an action.
pub enum Event {
    /// The oldest markers of the queue, at most the limit that was asked for.
    ChunkRead(Vec<QueueMarker>),
    /// The identifiers of the entities that the loader returned.
    EntitiesLoaded(Vec<Key>),
    /// The index accepted the deletion or upsert that was asked for.
    IndexAccepted,
    /// The queue store deleted this many markers.
    MarkersRemoved(u64),
    /// The action that was asked for failed (database or index).
    Failure,
}

/// What the caller must do next.
pub enum Action {
    /// Read the oldest `limit` markers, ordered by sequence id.
    ReadChunk { limit: u64 },
    /// Load the entities of `kind` with these identifiers.
    LoadEntities { kind: EntityKind, ids: Vec<Key> },
    /// Delete the documents with these identifiers from the index of `kind`.
    DeleteDocuments { kind: EntityKind, ids: Vec<Key> },
    /// Add or replace the loaded entities, whose identifiers these are, in the
    /// index of `kind`.
    UpsertDocuments { kind: EntityKind, ids: Vec<Key> },
    /// Delete every queue marker of a realm in `realm_ids` or of an event in
    /// `event_ids`.
    RemoveMarkers { realm_ids: Vec<Key>, event_ids: Vec<Key> },
    /// The sub-cycle is over. `done` tells whether the queue is drained;
    /// `count_mismatch` that the store deleted another number of markers than
    /// were read, which deserves a warning and nothing more.
    Finish { done: bool, count_mismatch: bool },
    /// The sub-cycle failed; the transaction is rolled back and the markers
    /// stay for a later drain.
    Abort,
}

/// The mathematical content of an [`Event`].
pub enum EventModel {
    ChunkRead(Seq<QueueMarker>),
    EntitiesLoaded(Seq<Key>),
    IndexAccepted,
    MarkersRemoved(nat),
    Failure,
}

/// The mathematical content of an [`Action`].
pub enum ActionModel {
    ReadChunk { limit: nat },
    LoadEntities { kind: EntityKind, ids: Seq<Key> },
    DeleteDocuments { kind: EntityKind, ids: Seq<Key> },
    UpsertDocuments { kind: EntityKind, ids: Seq<Key> },
    RemoveMarkers { realm_ids: Seq<Key>, event_ids: Seq<Key> },
    Finish { done: bool, count_mismatch: bool },
    Abort,
}

impl View for Event {
    type V = EventModel;

    open spec fn view(&self) -> EventModel {
        match self {
            Event::ChunkRead(ms) => EventModel::ChunkRead(ms@),
            Event::EntitiesLoaded(ids) => EventModel::EntitiesLoaded(ids@),
            Event::IndexAccepted => EventModel::IndexAccepted,
            Event::MarkersRemoved(n) => EventModel::MarkersRemoved(*n as nat),
            Event::Failure => EventModel::Failure,
        }
    }
}

impl View for Action {
    type V = ActionModel;

    open spec fn view(&self) -> ActionModel {
        match self {
            Action::ReadChunk { limit } => ActionModel::ReadChunk { limit: *limit as nat },
            Action::LoadEntities { kind, ids } => ActionModel::LoadEntities { kind: *kind, ids: ids@ },
            Action::DeleteDocuments { kind, ids } => ActionModel::DeleteDocuments {
                kind: *kind,
                ids: ids@,
            },
            Action::UpsertDocuments { kind, ids } => ActionModel::UpsertDocuments {
                kind: *kind,
                ids: ids@,
            },
            Action::RemoveMarkers { realm_ids, event_ids } => ActionModel::RemoveMarkers {
                realm_ids: realm_ids@,
                event_ids: event_ids@,
            },
            Action::Finish { done, count_mismatch } => ActionModel::Finish {
                done: *done,
                count_mismatch: *count_mismatch,
            },
            Action::Abort => ActionModel::Abort,
        }
    }
}

/// One sub-cycle of a drain: it reads a chunk of markers, reconciles the
/// realms and then the events among them, and only then deletes the markers.
pub struct SubCycle {
    chunk_size: u64,
    read_count: usize,
    realm_ids: Vec<Key>,
    event_ids: Vec<Key>,
    upserts: Vec<Key>,
    stage: Stage,
}

/// The mathematical content of a [`SubCycle`].
pub struct SubCycleModel {
    pub chunk_size: nat,
    pub read_count: nat,
    pub realm_ids: Seq<Key>,
    pub event_ids: Seq<Key>,
    pub upserts: Seq<Key>,
    pub stage: Stage,
}

impl View for SubCycle {
    type V = SubCycleModel;

    closed spec fn view(&self) -> SubCycleModel {
        SubCycleModel {
            chunk_size: self.chunk_size as nat,
            read_count: self.read_count as nat,
            realm_ids: self.realm_ids@,
            event_ids: self.event_ids@,
            upserts: self.upserts@,
            stage: self.stage,
        }
    }
}

/// The identifiers of kind `kind` in the chunk that was read.
pub open spec fn ids_for(s: SubCycleModel, kind: EntityKind) -> Seq<Key> {
    match kind {
        EntityKind::Realm => s.realm_ids,
        EntityKind::Event => s.event_ids,
    }
}

/// Whether a sub-cycle that read `read_count` markers leaves a drained queue:
/// only a chunk shorter than the limit proves that nothing is left.
pub open spec fn chunk_done(read_count: nat, chunk_size: nat) -> bool {
    read_count < chunk_size
}

/// The state in which a sub-cycle starts.
pub open spec fn initial(chunk_size: nat) -> SubCycleModel {
    SubCycleModel {
        chunk_size,
        read_count: 0,
        realm_ids: Seq::empty(),
        event_ids: Seq::empty(),
        upserts: Seq::empty(),
        stage: Stage::Reading,
    }
}

/// All index work is done: delete the markers that were read.
pub open spec fn to_removal(s: SubCycleModel) -> (SubCycleModel, ActionModel) {
    (
        SubCycleModel { stage: Stage::RemovingMarkers, ..s },
        ActionModel::RemoveMarkers { realm_ids: s.realm_ids, event_ids: s.event_ids },
    )
}

/// Reconcile the events if any were read, else go on to the removal.
pub open spec fn open_event(s: SubCycleModel) -> (SubCycleModel, ActionModel) {
    if s.event_ids.len() > 0 {
        (
            SubCycleModel { stage: Stage::Loading { kind: EntityKind::Event }, ..s },
            ActionModel::LoadEntities { kind: EntityKind::Event, ids: s.event_ids },
        )
    } else {
        to_removal(s)
    }
}

/// Reconcile the realms if any were read, else go on to the events.
pub open spec fn open_realm(s: SubCycleModel) -> (SubCycleModel, ActionModel) {
    if s.realm_ids.len() > 0 {
        (
            SubCycleModel { stage: Stage::Loading { kind: EntityKind::Realm }, ..s },
            ActionModel::LoadEntities { kind: EntityKind::Realm, ids: s.realm_ids },
        )
    } else {
        open_event(s)
    }
}

/// The reconciliation of `kind` is over: go on to the next kind.
pub open spec fn after_kind(s: SubCycleModel, kind: EntityKind) -> (SubCycleModel, ActionModel) {
    match kind {
        EntityKind::Realm => open_event(s),
        EntityKind::Event => to_removal(s),
    }
}

/// Upsert the loaded entities of `kind` if there are any, else go on.
pub open spec fn open_upsert(s: SubCycleModel, kind: EntityKind) -> (SubCycleModel, ActionModel) {
    if s.upserts.len() > 0 {
        (
            SubCycleModel { stage: Stage::Upserting { kind }, ..s },
            ActionModel::UpsertDocuments { kind, ids: s.upserts },
        )
    } else {
        after_kind(s, kind)
    }
}

/// The sub-cycle after an event that it did not wait for, or after a failure.
pub open spec fn failed(s: SubCycleModel) -> (SubCycleModel, ActionModel) {
    (SubCycleModel { stage: Stage::Failed, ..s }, ActionModel::Abort)
}

/// The transition of a sub-cycle in state `s` on event `e`: its next state and
/// what the caller must do next.
pub open spec fn next(s: SubCycleModel, e: EventModel) -> (SubCycleModel, ActionModel) {
    match (s.stage, e) {
        (Stage::Reading, EventModel::ChunkRead(ms)) => {
            let t = SubCycleModel {
                read_count: ms.len(),
                realm_ids: ids_of(ms, EntityKind::Realm),
                event_ids: ids_of(ms, EntityKind::Event),
                ..s
            };
            if ms.len() == 0 {
                (
                    SubCycleModel { stage: Stage::Finished { done: true }, ..t },
                    ActionModel::Finish { done: true, count_mismatch: false },
                )
            } else {
                open_realm(t)
            }
        },
        (Stage::Loading { kind }, EventModel::EntitiesLoaded(present)) => {
            let gone = missing(ids_for(s, kind), present);
            let t = SubCycleModel { upserts: present, ..s };
            if gone.len() > 0 {
                (
                    SubCycleModel { stage: Stage::DeletingDocuments { kind }, ..t },
                    ActionModel::DeleteDocuments { kind, ids: gone },
                )
            } else {
                open_upsert(t, kind)
            }
        },
        (Stage::DeletingDocuments { kind }, EventModel::IndexAccepted) => open_upsert(s, kind),
        (Stage::Upserting { kind }, EventModel::IndexAccepted) => after_kind(s, kind),
        (Stage::RemovingMarkers, EventModel::MarkersRemoved(n)) => {
            let done = chunk_done(s.read_count, s.chunk_size);
            (
                SubCycleModel { stage: Stage::Finished { done }, ..s },
                ActionModel::Finish { done, count_mismatch: n != s.read_count },
            )
        },
        _ => failed(s),
    }
}

/// Copies a list of identifiers.
fn copy_keys(keys: &Vec<Key>) -> (r: Vec<Key>)
    ensures
        r@ == keys@,
{
    let mut out: Vec<Key> = Vec::new();
    let mut i: usize = 0;
    while i < keys.len()
        invariant
            i <= keys@.len(),
            out@ == keys@.take(i as int),
        decreases keys@.len() - i,
    {
        out.push(keys[i]);
        i = i + 1;
        assert(out@ =~= keys@.take(i as int));
    }
    assert(keys@.take(i as int) =~= keys@);
    out
}

impl SubCycle {
    /// A sub-cycle that reads at most `chunk_size` markers, and the action
    /// that starts it.
    pub fn new(chunk_size: u64) -> (r: (SubCycle, Action))
        ensures
            r.0@ == initial(chunk_size as nat),
            r.1@ == (ActionModel::ReadChunk { limit: chunk_size as nat }),
    {
        let s = SubCycle {
            chunk_size,
            read_count: 0,
            realm_ids: Vec::new(),
            event_ids: Vec::new(),
            upserts: Vec::new(),
            stage: Stage::Reading,
        };
        assert(s@.realm_ids =~= Seq::empty());
        (s, Action::ReadChunk { limit: chunk_size })
    }

    /// Where the sub-cycle stands.
    pub fn stage(&self) -> (r: Stage)
        ensures
            r == self@.stage,
    {
        self.stage
    }

    /// The number of markers that the sub-cycle read.
    pub fn read_count(&self) -> (r: usize)
        ensures
            r as nat == self@.read_count,
    {
        self.read_count
    }

    fn to_removal(self) -> (r: (SubCycle, Action))
        ensures
            (r.0@, r.1@) == to_removal(self@),
    {
        let realm_ids = copy_keys(&self.realm_ids);
        let event_ids = copy_keys(&self.event_ids);
        (SubCycle { stage: Stage::RemovingMarkers, ..self }, Action::RemoveMarkers { realm_ids, event_ids })
    }

    fn open_event(self) -> (r: (SubCycle, Action))
        ensures
            (r.0@, r.1@) == open_event(self@),
    {
        if self.event_ids.len() > 0 {
            let ids = copy_keys(&self.event_ids);
            (
                SubCycle { stage: Stage::Loading { kind: EntityKind::Event }, ..self },
                Action::LoadEntities { kind: EntityKind::Event, ids },
            )
        } else {
            self.to_removal()
        }
    }

    fn open_realm(self) -> (r: (SubCycle, Action))
        ensures
            (r.0@, r.1@) == open_realm(self@),
    {
        if self.realm_ids.len() > 0 {
            let ids = copy_keys(&self.realm_ids);
            (
                SubCycle { stage: Stage::Loading { kind: EntityKind::Realm }, ..self },
                Action::LoadEntities { kind: EntityKind::Realm, ids },
            )
        } else {
            self.open_event()
        }
    }

    fn after_kind(self, kind: EntityKind) -> (r: (SubCycle, Action))
        ensures
            (r.0@, r.1@) == after_kind(self@, kind),
    {
        match kind {
            EntityKind::Realm => self.open_event(),
            EntityKind::Event => self.to_removal(),
        }
    }

    fn open_upsert(self, kind: EntityKind) -> (r: (SubCycle, Action))
        ensures
            (r.0@, r.1@) == open_upsert(self@, kind),
    {
        if self.upserts.len() > 0 {
            let ids = copy_keys(&self.upserts);
            (SubCycle { stage: Stage::Upserting { kind }, ..self }, Action::UpsertDocuments { kind, ids })
        } else {
            self.after_kind(kind)
        }
    }

    /// Advances the sub-cycle on what the caller reports, and returns the
    /// next state with the action that the caller must carry out.
    pub fn step(self, event: Event) -> (r: (SubCycle, Action))
        ensures
            (r.0@, r.1@) == next(self@, event@),
    {
        match (self.stage, event) {
            (Stage::Reading, Event::ChunkRead(ms)) => {
                let (realm_ids, event_ids) = partition_by_kind(&ms);
                let t = SubCycle { read_count: ms.len(), realm_ids, event_ids, ..self };
                if ms.len() == 0 {
                    (
                        SubCycle { stage: Stage::Finished { done: true }, ..t },
                        Action::Finish { done: true, count_mismatch: false },
                    )
                } else {
                    t.open_realm()
                }
            },
            (Stage::Loading { kind }, Event::EntitiesLoaded(present)) => {
                let gone = match kind {
                    EntityKind::Realm => missing_ids(&self.realm_ids, &present),
                    EntityKind::Event => missing_ids(&self.event_ids, &present),
                };
                let t = SubCycle { upserts: present, ..self };
                if gone.len() > 0 {
                    (
                        SubCycle { stage: Stage::DeletingDocuments { kind }, ..t },
                        Action::DeleteDocuments { kind, ids: gone },
                    )
                } else {
                    t.open_upsert(kind)
                }
            },
            (Stage::DeletingDocuments { kind }, Event::IndexAccepted) => self.open_upsert(kind),
            (Stage::Upserting { kind }, Event::IndexAccepted) => self.after_kind(kind),
            (Stage::RemovingMarkers, Event::MarkersRemoved(n)) => {
                let done = (self.read_count as u128) < (self.chunk_size as u128);
                let count_mismatch = n as u128 != self.read_count as u128;
                (SubCycle { stage: Stage::Finished { done }, ..self }, Action::Finish { done, count_mismatch })
            },
            _ => (SubCycle { stage: Stage::Failed, ..self }, Action::Abort),
        }
    }
}

} // verus!
