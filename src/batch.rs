//! The dispatcher's pull: a batch is the next items of the source, as many
//! as there are workers, or fewer when the source runs dry.

use vstd::prelude::*;
use vstd::std_specs::iter::IteratorSpec;

verus! {

/// The length of the batch pulled from a source with `available` items left,
/// for `limit` workers.
pub open spec fn batch_len(available: nat, limit: nat) -> nat {
    if available < limit {
        available
    } else {
        limit
    }
}

/// Pulls up to `limit` items from `source`, stopping at the first `None`.
/// For a source that keeps the iterator laws, the batch is the first
/// `min(limit, remaining)` items, and the source keeps the rest.
pub fn take_batch<I: Iterator>(source: &mut I, limit: usize) -> (batch: Vec<I::Item>)
    ensures
        batch@.len() <= limit,
        <I as IteratorSpec>::obeys_prophetic_iter_laws(final(source)) == <I as IteratorSpec>::obeys_prophetic_iter_laws(old(source)),
        <I as IteratorSpec>::obeys_prophetic_iter_laws(old(source)) ==> {
            let n = batch_len(<I as IteratorSpec>::remaining(old(source)).len(), limit as nat);
            &&& batch@ == <I as IteratorSpec>::remaining(old(source)).take(n as int)
            &&& <I as IteratorSpec>::remaining(final(source)) == <I as IteratorSpec>::remaining(old(source)).skip(n as int)
        },
{
    let mut batch: Vec<I::Item> = Vec::new();
    let mut dry = false;
    while !dry && batch.len() < limit
        invariant
            dry && <I as IteratorSpec>::obeys_prophetic_iter_laws(old(source))
                ==> <I as IteratorSpec>::remaining(source).len() == 0,
            batch@.len() <= limit,
            <I as IteratorSpec>::obeys_prophetic_iter_laws(source) == <I as IteratorSpec>::obeys_prophetic_iter_laws(old(source)),
            <I as IteratorSpec>::obeys_prophetic_iter_laws(old(source)) ==> <I as IteratorSpec>::remaining(old(source)) == batch@
                + <I as IteratorSpec>::remaining(source),
        decreases limit - batch@.len(), if dry { 0int } else { 1int },
    {
        match source.next() {
            Some(item) => {
                batch.push(item);
            },
            None => {
                dry = true;
            },
        }
    }
    proof {
        if <I as IteratorSpec>::obeys_prophetic_iter_laws(old(source)) {
            let n = batch_len(<I as IteratorSpec>::remaining(old(source)).len(), limit as nat);
            assert(n == batch@.len());
            assert(<I as IteratorSpec>::remaining(old(source)).take(n as int) =~= batch@);
            assert(<I as IteratorSpec>::remaining(old(source)).skip(n as int) =~= <I as IteratorSpec>::remaining(source));
        }
    }
    batch
}

/// Each item of a batch paired with its position in the batch.
pub open spec fn tagged<T>(batch: Seq<T>) -> Seq<(usize, T)> {
    batch.map(|k: int, x: T| (k as usize, x))
}

/// Tags each item of `batch` with its position, as a queue of tasks whose
/// next one is at the end: position 0 is handed out first.
pub fn tag_batch<T>(batch: Vec<T>) -> (tasks: Vec<(usize, T)>)
    ensures
        tasks@ == tagged(batch@).reverse(),
{
    let ghost items = batch@;
    let mut batch = batch;
    let mut tasks: Vec<(usize, T)> = Vec::new();
    while batch.len() > 0
        invariant
            batch@.len() + tasks@.len() == items.len(),
            batch@ == items.take(batch@.len() as int),
            forall|i: int|
                0 <= i < tasks@.len() ==> tasks@[i] == ((items.len() - 1 - i) as usize, items[items.len()
                    - 1 - i]),
        decreases batch@.len(),
    {
        let position = batch.len() - 1;
        assert(batch@[position as int] == items[position as int]);
        let item = batch.pop().unwrap();
        tasks.push((position, item));
    }
    assert(tasks@ =~= tagged(items).reverse());
    tasks
}

} // verus!
