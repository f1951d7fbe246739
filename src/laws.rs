use vstd::prelude::*;
use crate::cadence::sleep_after;
use crate::cycle::{
    ActionModel, EventModel, Stage, SubCycleModel, after_kind, chunk_done, ids_for, next,
};
use crate::marker::{
    EntityKind, Key, QueueMarker, ids_of, lemma_ids_of_contains, remove_markers, removed_by,
};
use crate::reconcile::missing;

verus! {

/// The chunk that a read with limit `c` returns from the queue `q`: its
/// oldest `c` markers, or all of them when there are fewer.
pub open spec fn read_chunk(q: Seq<QueueMarker>, c: nat) -> Seq<QueueMarker> {
    if q.len() <= c {
        q
    } else {
        q.take(c as int)
    }
}

/// The queue `q` after a sub-cycle that read `chunk` from it went through.
pub open spec fn after_sub_cycle(q: Seq<QueueMarker>, chunk: Seq<QueueMarker>) -> Seq<QueueMarker> {
    remove_markers(q, ids_of(chunk, EntityKind::Realm), ids_of(chunk, EntityKind::Event))
}

/// Every requested identifier gets exactly one outcome: it is deleted from the
/// index when the loader did not return it and upserted when it did; and
/// nothing outside the request is deleted.
pub proof fn lemma_missing_exact(requested: Seq<Key>, present: Seq<Key>)
    ensures
        forall|id: Key|
            requested.contains(id) ==> (#[trigger] missing(requested, present).contains(id)
                <==> !present.contains(id)),
        forall|id: Key| #[trigger] missing(requested, present).contains(id) ==> requested.contains(id),
    decreases requested.len(),
{
    if requested.len() > 0 {
        let front = requested.drop_last();
        let last = requested.last();
        let rest = missing(front, present);
        lemma_missing_exact(front, present);
        assert forall|id: Key| requested.contains(id) implies (#[trigger] missing(
            requested,
            present,
        ).contains(id) <==> !present.contains(id)) by {
            let i = choose|i: int| 0 <= i < requested.len() && requested[i] == id;
            if i < requested.len() - 1 {
                assert(front[i] == id);
            }
            if !present.contains(last) {
                assert(missing(requested, present).last() == last);
                if rest.contains(id) {
                    let j = choose|j: int| 0 <= j < rest.len() && rest[j] == id;
                    assert(missing(requested, present)[j] == id);
                }
            }
        }
        assert forall|id: Key| #[trigger] missing(requested, present).contains(id) implies requested.contains(
            id,
        ) by {
            let j = choose|j: int|
                0 <= j < missing(requested, present).len() && missing(requested, present)[j] == id;
            if j < rest.len() {
                assert(rest[j] == id);
                assert(rest.contains(id));
                let i = choose|i: int| 0 <= i < front.len() && front[i] == id;
                assert(requested[i] == id);
            } else {
                assert(requested[requested.len() - 1] == id);
            }
        }
    }
}

/// A drain of an empty queue asks for no index work: the first sub-cycle
/// finishes at once, and reports the queue as drained.
pub proof fn lemma_empty_drain(s: SubCycleModel)
    requires
        s.stage == Stage::Reading,
    ensures
        next(s, EventModel::ChunkRead(Seq::empty())).1 == (ActionModel::Finish {
            done: true,
            count_mismatch: false,
        }),
        next(s, EventModel::ChunkRead(Seq::empty())).0.stage == (Stage::Finished { done: true }),
{
}

/// Once a chunk has been read, no later step changes what was read: the
/// identifiers, their count and the limit stay as they are, so the markers that
/// the sub-cycle finally deletes are those of its chunk.
pub proof fn lemma_chunk_fixed(s: SubCycleModel, e: EventModel)
    requires
        s.stage != Stage::Reading,
    ensures
        next(s, e).0.realm_ids == s.realm_ids,
        next(s, e).0.event_ids == s.event_ids,
        next(s, e).0.read_count == s.read_count,
        next(s, e).0.chunk_size == s.chunk_size,
        next(s, e).1 is RemoveMarkers ==> next(s, e).1 == (ActionModel::RemoveMarkers {
            realm_ids: s.realm_ids,
            event_ids: s.event_ids,
        }),
{
}

/// The reconciliation of one kind: after the loader returned `present` for
/// the requested identifiers, the index of that kind gets a deletion of exactly
/// the requested identifiers that were not returned, if there are any, then an
/// upsert of the loaded entities, if there are any, and no other call; after
/// that the sub-cycle goes on to the next kind.
pub proof fn lemma_reconcile_calls(s: SubCycleModel, kind: EntityKind, present: Seq<Key>)
    requires
        s.stage == (Stage::Loading { kind }),
    ensures
        ({
            let gone = missing(ids_for(s, kind), present);
            let (t, a) = next(s, EventModel::EntitiesLoaded(present));
            let t2 = SubCycleModel { upserts: present, ..s };
            if gone.len() > 0 {
                &&& a == (ActionModel::DeleteDocuments { kind, ids: gone })
                &&& if present.len() > 0 {
                    &&& next(t, EventModel::IndexAccepted).1 == (ActionModel::UpsertDocuments {
                        kind,
                        ids: present,
                    })
                    &&& next(next(t, EventModel::IndexAccepted).0, EventModel::IndexAccepted)
                        == after_kind(t2, kind)
                } else {
                    next(t, EventModel::IndexAccepted) == after_kind(t2, kind)
                }
            } else if present.len() > 0 {
                &&& a == (ActionModel::UpsertDocuments { kind, ids: present })
                &&& next(t, EventModel::IndexAccepted) == after_kind(t2, kind)
            } else {
                (t, a) == after_kind(t2, kind)
            }
        }),
{
}

/// Whatever the next kind is, moving on from a kind asks no more of its index:
/// the next action loads the events or deletes the markers.
pub proof fn lemma_after_kind_leaves_index(s: SubCycleModel, kind: EntityKind)
    ensures
        after_kind(s, kind).1 is LoadEntities || after_kind(s, kind).1 is RemoveMarkers,
        after_kind(s, kind).1 is LoadEntities ==> kind == EntityKind::Realm,
{
}

/// A failure reported at any point before the sub-cycle finished, of the
/// loader or of the index, aborts it; an aborted sub-cycle aborts on every
/// later event. It then never asks for its markers to be deleted, so they stay
/// in the queue and the next drain reads and reconciles them again.
pub proof fn lemma_failure_keeps_markers(s: SubCycleModel, e: EventModel)
    ensures
        next(s, EventModel::Failure).1 == ActionModel::Abort,
        next(s, EventModel::Failure).0.stage == Stage::Failed,
        next(next(s, EventModel::Failure).0, e).1 == ActionModel::Abort,
        next(next(s, EventModel::Failure).0, e).0.stage == Stage::Failed,
{
}

/// The markers are deleted only on the heels of success: the action that
/// deletes them never answers a failure, and follows either the last accepted
/// index call, or a loader result that asked for no index call, or a read.
pub proof fn lemma_removal_follows_success(s: SubCycleModel, e: EventModel)
    requires
        next(s, e).1 is RemoveMarkers,
    ensures
        e is IndexAccepted || e is EntitiesLoaded || e is ChunkRead,
        e is IndexAccepted ==> (s.stage is Upserting || s.stage is DeletingDocuments),
{
}

/// A queue that holds a full chunk of `c` markers and then `k < c` more is
/// drained in exactly two sub-cycles: the first reads a full chunk and so goes
/// on, the second reads what is left, which is shorter than a chunk, and so
/// stops; after both nothing is left.
pub proof fn lemma_chunk_termination(q: Seq<QueueMarker>, c: nat, k: nat)
    requires
        0 < c,
        k < c,
        q.len() == c + k,
    ensures
        !chunk_done(read_chunk(q, c).len(), c),
        after_sub_cycle(q, read_chunk(q, c)).len() <= k,
        chunk_done(read_chunk(after_sub_cycle(q, read_chunk(q, c)), c).len(), c),
        ({
            let rest = after_sub_cycle(q, read_chunk(q, c));
            after_sub_cycle(rest, read_chunk(rest, c)).len() == 0
        }),
{
    let first = read_chunk(q, c);
    if k == 0 {
        assert(first =~= q);
    }
    assert(first =~= q.take(c as int));
    assert(q =~= first + q.skip(c as int));
    let realm = ids_of(first, EntityKind::Realm);
    let event = ids_of(first, EntityKind::Event);
    let keep = |m: QueueMarker| !removed_by(m, realm, event);
    Seq::filter_distributes_over_add(first, q.skip(c as int), keep);
    lemma_chunk_all_removed(first);
    q.skip(c as int).lemma_filter_len(keep);
    let rest = after_sub_cycle(q, first);
    assert(read_chunk(rest, c) =~= rest);
    lemma_chunk_all_removed(rest);
}

/// Deleting the markers named by a chunk removes every marker of the chunk.
proof fn lemma_chunk_all_removed(ms: Seq<QueueMarker>)
    ensures
        after_sub_cycle(ms, ms).len() == 0,
{
    let realm = ids_of(ms, EntityKind::Realm);
    let event = ids_of(ms, EntityKind::Event);
    let keep = |m: QueueMarker| !removed_by(m, realm, event);
    let kept = ms.filter(keep);
    if kept.len() > 0 {
        ms.lemma_filter_pred(keep, 0);
        assert(kept.contains(kept[0]));
        ms.lemma_filter_contains_rev(keep, kept[0]);
        let i = choose|i: int| 0 <= i < ms.len() && ms[i] == kept[0];
        lemma_marker_removed(ms, i);
    }
}

/// Duplicate markers collapse: when two markers of a chunk name the same
/// entity, the sub-cycle deletes both from the queue (as it deletes every
/// marker of its chunk), and the entity gets one outcome, a deletion from the
/// index when the loader did not return it and an upsert when it did.
pub proof fn lemma_duplicate_collapse(
    ms: Seq<QueueMarker>,
    i: int,
    j: int,
    present: Seq<Key>,
    q: Seq<QueueMarker>,
)
    requires
        0 <= i < ms.len(),
        0 <= j < ms.len(),
        ms[i].kind == ms[j].kind,
        ms[i].item_id == ms[j].item_id,
    ensures
        !after_sub_cycle(q, ms).contains(ms[i]),
        !after_sub_cycle(q, ms).contains(ms[j]),
        ids_of(ms, ms[i].kind).contains(ms[i].item_id),
        missing(ids_of(ms, ms[i].kind), present).contains(ms[i].item_id) <==> !present.contains(
            ms[i].item_id,
        ),
{
    let realm = ids_of(ms, EntityKind::Realm);
    let event = ids_of(ms, EntityKind::Event);
    let keep = |m: QueueMarker| !removed_by(m, realm, event);
    lemma_marker_removed(ms, i);
    lemma_marker_removed(ms, j);
    if after_sub_cycle(q, ms).contains(ms[i]) {
        let x = choose|x: int| 0 <= x < q.filter(keep).len() && q.filter(keep)[x] == ms[i];
        q.lemma_filter_pred(keep, x);
    }
    if after_sub_cycle(q, ms).contains(ms[j]) {
        let x = choose|x: int| 0 <= x < q.filter(keep).len() && q.filter(keep)[x] == ms[j];
        q.lemma_filter_pred(keep, x);
    }
    lemma_ids_of_contains(ms, ms[i].kind, i);
    lemma_missing_exact(ids_of(ms, ms[i].kind), present);
}

/// Each marker of a chunk is named by the identifiers of its kind.
proof fn lemma_marker_removed(ms: Seq<QueueMarker>, i: int)
    requires
        0 <= i < ms.len(),
    ensures
        removed_by(ms[i], ids_of(ms, EntityKind::Realm), ids_of(ms, EntityKind::Event)),
{
    lemma_ids_of_contains(ms, ms[i].kind, i);
}

/// Consecutive drains start at least `interval` apart: the drain's own time
/// and the pause after it add up to the interval or more, the pause is never
/// longer than the interval, and it is zero once a drain took the whole
/// interval.
pub proof fn lemma_cadence(interval: nat, elapsed: nat)
    ensures
        elapsed + sleep_after(interval, elapsed) >= interval,
        sleep_after(interval, elapsed) <= interval,
        elapsed >= interval ==> sleep_after(interval, elapsed) == 0,
        elapsed < interval ==> elapsed + sleep_after(interval, elapsed) == interval,
{
}

} // verus!
