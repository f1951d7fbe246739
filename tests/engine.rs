use search_index_sync::{
    missing_ids, next_sleep, partition_by_kind, contains_key, Action, EntityKind, Event, QueueMarker,
    Stage, SubCycle,
};

fn marker(sequence_id: u64, item_id: u64, kind: EntityKind) -> QueueMarker {
    QueueMarker { sequence_id, item_id, kind }
}

/// Everything the caller was asked to do against the index or the queue.
#[derive(Debug, PartialEq)]
enum Call {
    Load(EntityKind, Vec<u64>),
    Delete(EntityKind, Vec<u64>),
    Upsert(EntityKind, Vec<u64>),
    RemoveMarkers(Vec<u64>, Vec<u64>),
}

/// An in-memory world: a queue, the entities that exist, and switches that
/// make a loader or an index call fail.
struct World {
    queue: Vec<QueueMarker>,
    realms: Vec<u64>,
    events: Vec<u64>,
    fail_load: bool,
    fail_upsert: bool,
    calls: Vec<Call>,
}

impl World {
    fn new(queue: Vec<QueueMarker>, realms: Vec<u64>, events: Vec<u64>) -> World {
        World { queue, realms, events, fail_load: false, fail_upsert: false, calls: Vec::new() }
    }

    /// Runs one sub-cycle; returns `Some(done)` when it finished and `None`
    /// when it aborted.
    fn sub_cycle(&mut self, chunk_size: u64) -> Option<bool> {
        let (mut cycle, mut action) = SubCycle::new(chunk_size);
        loop {
            let event = match action {
                Action::ReadChunk { limit } => {
                    let n = std::cmp::min(limit as usize, self.queue.len());
                    Event::ChunkRead(self.queue[..n].to_vec())
                }
                Action::LoadEntities { kind, ids } => {
                    self.calls.push(Call::Load(kind, ids.clone()));
                    if self.fail_load {
                        Event::Failure
                    } else {
                        let existing = match kind {
                            EntityKind::Realm => &self.realms,
                            EntityKind::Event => &self.events,
                        };
                        let mut found: Vec<u64> =
                            existing.iter().copied().filter(|id| ids.contains(id)).collect();
                        found.sort();
                        Event::EntitiesLoaded(found)
                    }
                }
                Action::DeleteDocuments { kind, ids } => {
                    self.calls.push(Call::Delete(kind, ids));
                    Event::IndexAccepted
                }
                Action::UpsertDocuments { kind, ids } => {
                    self.calls.push(Call::Upsert(kind, ids));
                    if self.fail_upsert {
                        Event::Failure
                    } else {
                        Event::IndexAccepted
                    }
                }
                Action::RemoveMarkers { realm_ids, event_ids } => {
                    self.calls.push(Call::RemoveMarkers(realm_ids.clone(), event_ids.clone()));
                    let before = self.queue.len();
                    self.queue.retain(|m| match m.kind {
                        EntityKind::Realm => !realm_ids.contains(&m.item_id),
                        EntityKind::Event => !event_ids.contains(&m.item_id),
                    });
                    Event::MarkersRemoved((before - self.queue.len()) as u64)
                }
                Action::Finish { done, .. } => return Some(done),
                Action::Abort => return None,
            };
            let (c, a) = cycle.step(event);
            cycle = c;
            action = a;
        }
    }

    /// Runs sub-cycles until one reports a drained queue; returns how many ran.
    fn drain(&mut self, chunk_size: u64) -> Option<usize> {
        let mut rounds = 0;
        loop {
            rounds += 1;
            if self.sub_cycle(chunk_size)? {
                return Some(rounds);
            }
        }
    }

    fn index_calls(&self) -> Vec<&Call> {
        self.calls.iter().filter(|c| matches!(c, Call::Delete(..) | Call::Upsert(..))).collect()
    }
}

#[test]
fn empty_drain_makes_no_index_calls() {
    let mut w = World::new(Vec::new(), vec![1, 2], vec![3]);
    assert_eq!(w.drain(5000), Some(1));
    assert!(w.calls.is_empty());
}

#[test]
fn empty_chunk_finishes_at_once() {
    let (cycle, action) = SubCycle::new(10);
    assert!(matches!(action, Action::ReadChunk { limit: 10 }));
    let (cycle, action) = cycle.step(Event::ChunkRead(Vec::new()));
    assert!(matches!(action, Action::Finish { done: true, count_mismatch: false }));
    assert_eq!(cycle.stage(), Stage::Finished { done: true });
    assert_eq!(cycle.read_count(), 0);
}

#[test]
fn full_chunk_then_partial_takes_two_sub_cycles() {
    let c: u64 = 4;
    let queue: Vec<QueueMarker> = (0..7u64).map(|i| marker(i, 100 + i, EntityKind::Realm)).collect();
    let realms: Vec<u64> = (0..7u64).map(|i| 100 + i).collect();
    let mut w = World::new(queue, realms, Vec::new());
    assert_eq!(w.drain(c), Some(2));
    assert!(w.queue.is_empty());
}

#[test]
fn exactly_one_full_chunk_takes_two_sub_cycles() {
    let queue: Vec<QueueMarker> = (0..3u64).map(|i| marker(i, i, EntityKind::Event)).collect();
    let mut w = World::new(queue, Vec::new(), vec![0, 1, 2]);
    assert_eq!(w.drain(3), Some(2));
    assert!(w.queue.is_empty());
}

#[test]
fn reconciliation_deletes_missing_and_upserts_present() {
    let queue = vec![
        marker(1, 1, EntityKind::Realm),
        marker(2, 2, EntityKind::Realm),
        marker(3, 3, EntityKind::Realm),
    ];
    let mut w = World::new(queue, vec![1, 3], Vec::new());
    assert_eq!(w.drain(5000), Some(1));
    assert_eq!(
        w.index_calls(),
        vec![&Call::Delete(EntityKind::Realm, vec![2]), &Call::Upsert(EntityKind::Realm, vec![1, 3])]
    );
    assert!(w.queue.is_empty());
}

#[test]
fn realms_then_events_each_to_their_own_index() {
    let queue = vec![
        marker(1, 7, EntityKind::Event),
        marker(2, 5, EntityKind::Realm),
        marker(3, 8, EntityKind::Event),
    ];
    let mut w = World::new(queue, vec![], vec![7, 8]);
    assert_eq!(w.drain(5000), Some(1));
    assert_eq!(
        w.calls,
        vec![
            Call::Load(EntityKind::Realm, vec![5]),
            Call::Delete(EntityKind::Realm, vec![5]),
            Call::Load(EntityKind::Event, vec![7, 8]),
            Call::Upsert(EntityKind::Event, vec![7, 8]),
            Call::RemoveMarkers(vec![5], vec![7, 8]),
        ]
    );
}

#[test]
fn index_failure_keeps_markers_for_the_next_drain() {
    let queue = vec![marker(1, 1, EntityKind::Realm), marker(2, 2, EntityKind::Realm)];
    let mut w = World::new(queue.clone(), vec![1, 2], Vec::new());
    w.fail_upsert = true;
    assert_eq!(w.drain(5000), None);
    assert_eq!(w.queue, queue);
    assert!(!w.calls.iter().any(|c| matches!(c, Call::RemoveMarkers(..))));

    w.fail_upsert = false;
    w.calls.clear();
    assert_eq!(w.drain(5000), Some(1));
    assert_eq!(w.index_calls(), vec![&Call::Upsert(EntityKind::Realm, vec![1, 2])]);
    assert!(w.queue.is_empty());
}

#[test]
fn loader_failure_deletes_no_marker() {
    let queue = vec![marker(1, 4, EntityKind::Event)];
    let mut w = World::new(queue.clone(), Vec::new(), vec![4]);
    w.fail_load = true;
    assert_eq!(w.sub_cycle(5000), None);
    assert_eq!(w.queue, queue);
    assert!(w.index_calls().is_empty());
}

#[test]
fn failed_sub_cycle_stays_failed() {
    let (cycle, _) = SubCycle::new(5);
    let (cycle, _) = cycle.step(Event::ChunkRead(vec![marker(1, 1, EntityKind::Realm)]));
    let (cycle, action) = cycle.step(Event::Failure);
    assert!(matches!(action, Action::Abort));
    assert_eq!(cycle.stage(), Stage::Failed);
    let (cycle, action) = cycle.step(Event::MarkersRemoved(1));
    assert!(matches!(action, Action::Abort));
    assert_eq!(cycle.stage(), Stage::Failed);
}

#[test]
fn unexpected_event_aborts() {
    let (cycle, _) = SubCycle::new(5);
    let (cycle, action) = cycle.step(Event::IndexAccepted);
    assert!(matches!(action, Action::Abort));
    assert_eq!(cycle.stage(), Stage::Failed);
}

#[test]
fn duplicate_markers_collapse() {
    let queue = vec![
        marker(1, 9, EntityKind::Realm),
        marker(2, 9, EntityKind::Realm),
        marker(3, 9, EntityKind::Event),
    ];
    let mut w = World::new(queue, vec![9], Vec::new());
    assert_eq!(w.drain(5000), Some(1));
    assert_eq!(
        w.index_calls(),
        vec![&Call::Upsert(EntityKind::Realm, vec![9]), &Call::Delete(EntityKind::Event, vec![9])]
    );
    assert!(w.queue.is_empty());
}

#[test]
fn count_mismatch_is_reported_not_fatal() {
    let (cycle, _) = SubCycle::new(5);
    let (cycle, _) = cycle.step(Event::ChunkRead(vec![marker(1, 1, EntityKind::Realm)]));
    let (cycle, _) = cycle.step(Event::EntitiesLoaded(vec![1]));
    let (cycle, action) = cycle.step(Event::IndexAccepted);
    assert!(matches!(action, Action::RemoveMarkers { .. }));
    let (cycle, action) = cycle.step(Event::MarkersRemoved(2));
    assert!(matches!(action, Action::Finish { done: true, count_mismatch: true }));
    assert_eq!(cycle.stage(), Stage::Finished { done: true });
}

#[test]
fn full_chunk_is_not_done() {
    let (cycle, _) = SubCycle::new(2);
    let ms = vec![marker(1, 1, EntityKind::Event), marker(2, 2, EntityKind::Event)];
    let (cycle, action) = cycle.step(Event::ChunkRead(ms));
    assert!(matches!(action, Action::LoadEntities { kind: EntityKind::Event, .. }));
    let (cycle, action) = cycle.step(Event::EntitiesLoaded(vec![1, 2]));
    match &action {
        Action::UpsertDocuments { kind, ids } => {
            assert_eq!(*kind, EntityKind::Event);
            assert_eq!(ids, &vec![1, 2]);
        }
        _ => panic!("expected an upsert"),
    }
    let (cycle, _) = cycle.step(Event::IndexAccepted);
    let (_, action) = cycle.step(Event::MarkersRemoved(2));
    assert!(matches!(action, Action::Finish { done: false, count_mismatch: false }));
}

#[test]
fn partition_keeps_queue_order() {
    let ms = vec![
        marker(1, 3, EntityKind::Event),
        marker(2, 1, EntityKind::Realm),
        marker(3, 2, EntityKind::Event),
        marker(4, 3, EntityKind::Event),
    ];
    let (realms, events) = partition_by_kind(&ms);
    assert_eq!(realms, vec![1]);
    assert_eq!(events, vec![3, 2, 3]);
}

#[test]
fn missing_ids_keeps_request_order() {
    assert_eq!(missing_ids(&vec![1, 2, 3], &vec![1, 3]), vec![2]);
    assert_eq!(missing_ids(&vec![5, 4, 5, 6], &vec![6]), vec![5, 4, 5]);
    assert_eq!(missing_ids(&vec![], &vec![1]), Vec::<u64>::new());
    assert_eq!(missing_ids(&vec![1, 2], &vec![]), vec![1, 2]);
}

#[test]
fn contains_key_finds_members() {
    assert!(contains_key(&vec![4, 8], 8));
    assert!(!contains_key(&vec![4, 8], 5));
    assert!(!contains_key(&vec![], 0));
}

#[test]
fn sleep_is_the_rest_of_the_interval() {
    assert_eq!(next_sleep(1000, 300), 700);
    assert_eq!(next_sleep(1000, 1000), 0);
    assert_eq!(next_sleep(1000, 2500), 0);
    assert_eq!(next_sleep(0, 0), 0);
    assert_eq!(next_sleep(u64::MAX, 0), u64::MAX);
}
