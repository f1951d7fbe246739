use vstd::prelude::*;

verus! {

/// Identifier of an entity, stable across the database and the index.
pub type Key = u64;

/// The kinds of entities that are kept in the search index. Each kind has
/// exactly one index of its own.
#[derive(Clone, Copy, Debug, PartialEq, Eq, Structural)]
pub enum EntityKind {
    Realm,
    Event,
}

/// One pending change: the entity `item_id` of kind `kind` is stale in the
/// index. `sequence_id` orders the markers by insertion.
#[derive(Clone, Copy, Debug, PartialEq, Eq, Structural)]
pub struct QueueMarker {
    pub sequence_id: u64,
    pub item_id: Key,
    pub kind: EntityKind,
}

/// The identifiers of the markers of kind `kind`, in queue order.
pub open spec fn ids_of(ms: Seq<QueueMarker>, kind: EntityKind) -> Seq<Key>
    decreases ms.len(),
{
    if ms.len() == 0 {
        Seq::empty()
    } else {
        let rest = ids_of(ms.drop_last(), kind);
        if ms.last().kind == kind {
            rest.push(ms.last().item_id)
        } else {
            rest
        }
    }
}

/// Whether deleting the markers named by `realm_ids` and `event_ids` removes
/// the marker `m`.
pub open spec fn removed_by(m: QueueMarker, realm_ids: Seq<Key>, event_ids: Seq<Key>) -> bool {
    (m.kind == EntityKind::Realm && realm_ids.contains(m.item_id)) || (m.kind
        == EntityKind::Event && event_ids.contains(m.item_id))
}

/// The queue `q` after the markers named by `realm_ids` and `event_ids` were
/// deleted from it: every marker of a named (kind, id) pair goes, duplicates
/// included, and the others stay in order.
pub open spec fn remove_markers(q: Seq<QueueMarker>, realm_ids: Seq<Key>, event_ids: Seq<Key>) -> Seq<
    QueueMarker,
> {
    q.filter(|m: QueueMarker| !removed_by(m, realm_ids, event_ids))
}

/// Every marker of kind `kind` in `ms` has its identifier in `ids_of(ms, kind)`.
pub proof fn lemma_ids_of_contains(ms: Seq<QueueMarker>, kind: EntityKind, i: int)
    requires
        0 <= i < ms.len(),
        ms[i].kind == kind,
    ensures
        ids_of(ms, kind).contains(ms[i].item_id),
    decreases ms.len(),
{
    let rest = ids_of(ms.drop_last(), kind);
    if i == ms.len() - 1 {
        assert(ids_of(ms, kind).last() == ms[i].item_id);
    } else {
        lemma_ids_of_contains(ms.drop_last(), kind, i);
        let j = choose|j: int| 0 <= j < rest.len() && rest[j] == ms[i].item_id;
        assert(ids_of(ms, kind)[j] == ms[i].item_id);
    }
}

/// Splits a chunk of markers into the identifiers of realms and those of
/// events, each list in queue order.
pub fn partition_by_kind(markers: &Vec<QueueMarker>) -> (r: (Vec<Key>, Vec<Key>))
    ensures
        r.0@ == ids_of(markers@, EntityKind::Realm),
        r.1@ == ids_of(markers@, EntityKind::Event),
{
    let mut realm_ids: Vec<Key> = Vec::new();
    let mut event_ids: Vec<Key> = Vec::new();
    let mut i: usize = 0;
    while i < markers.len()
        invariant
            i <= markers@.len(),
            realm_ids@ == ids_of(markers@.take(i as int), EntityKind::Realm),
            event_ids@ == ids_of(markers@.take(i as int), EntityKind::Event),
        decreases markers@.len() - i,
    {
        let m = markers[i];
        assert(markers@.take(i as int + 1).drop_last() =~= markers@.take(i as int));
        match m.kind {
            EntityKind::Realm => realm_ids.push(m.item_id),
            EntityKind::Event => event_ids.push(m.item_id),
        }
        i = i + 1;
    }
    assert(markers@.take(i as int) =~= markers@);
    (realm_ids, event_ids)
}

} // verus!
