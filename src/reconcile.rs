use vstd::prelude::*;
use crate::marker::Key;

verus! {

/// The requested identifiers that the loader did not return, in request
/// order and with their repetitions.
pub open spec fn missing(requested: Seq<Key>, present: Seq<Key>) -> Seq<Key>
    decreases requested.len(),
{
    if requested.len() == 0 {
        Seq::empty()
    } else {
        let rest = missing(requested.drop_last(), present);
        if present.contains(requested.last()) {
            rest
        } else {
            rest.push(requested.last())
        }
    }
}

/// Whether `id` occurs in `keys`.
pub fn contains_key(keys: &Vec<Key>, id: Key) -> (r: bool)
    ensures
        r == keys@.contains(id),
{
    let mut i: usize = 0;
    while i < keys.len()
        invariant
            i <= keys@.len(),
            forall|j: int| 0 <= j < i ==> keys@[j] != id,
        decreases keys@.len() - i,
    {
        if keys[i] == id {
            return true;
        }
        i = i + 1;
    }
    false
}

/// The identifiers in `requested` that are absent from `present`: those whose
/// entity no longer exists and whose document must leave the index.
pub fn missing_ids(requested: &Vec<Key>, present: &Vec<Key>) -> (r: Vec<Key>)
    ensures
        r@ == missing(requested@, present@),
{
    let mut out: Vec<Key> = Vec::new();
    let mut i: usize = 0;
    while i < requested.len()
        invariant
            i <= requested@.len(),
            out@ == missing(requested@.take(i as int), present@),
        decreases requested@.len() - i,
    {
        let id = requested[i];
        assert(requested@.take(i as int + 1).drop_last() =~= requested@.take(i as int));
        if !contains_key(present, id) {
            out.push(id);
        }
        i = i + 1;
    }
    assert(requested@.take(i as int) =~= requested@);
    out
}

} // verus!
