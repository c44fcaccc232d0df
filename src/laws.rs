//! Facts about the batch model that `ThreadedMap::next` is stated against.
//! Each refill submits `batches(remaining, workers)[0]` and leaves the rest
//! of the source, whose batches are the remaining ones; each batch is handed
//! out in position order whatever order its results arrive in. Over
//! sequences, batches cover the input exactly, and mapping them one after
//! the other is the sequential map.

use crate::batch::batch_len;
use crate::reorder::{drain_order, has_position, positions_complete, window_of};
use vstd::prelude::*;

verus! {

/// The batches the dispatcher forms from `s` with `w` workers: full batches
/// of `w` items, the last one possibly shorter.
pub open spec fn batches<T>(s: Seq<T>, w: nat) -> Seq<Seq<T>>
    decreases s.len(),
{
    if s.len() == 0 || w == 0 {
        Seq::empty()
    } else {
        let n = batch_len(s.len(), w);
        seq![s.take(n as int)] + batches(s.skip(n as int), w)
    }
}

/// A refill takes the first batch of what the source has left, and the
/// batches of what stays are the remaining batches.
pub proof fn lemma_refill_takes_first_batch<T>(s: Seq<T>, w: nat)
    requires
        w >= 1,
        s.len() > 0,
    ensures
        batches(s, w)[0] == s.take(batch_len(s.len(), w) as int),
        batches(s, w).drop_first() == batches(s.skip(batch_len(s.len(), w) as int), w),
{
    let n = batch_len(s.len(), w);
    assert(batches(s, w).drop_first() =~= batches(s.skip(n as int), w));
}

/// The outputs of each batch of `s` under `f`, one batch after the other:
/// what is handed out when every batch is drained in position order.
pub open spec fn batched_map<T, O>(s: Seq<T>, w: nat, f: spec_fn(T) -> O) -> Seq<O> {
    batches(s, w).map_values(|b: Seq<T>| b.map_values(f)).flatten()
}

/// Whatever order the results of a batch arrive in, when each carries the
/// output of the item at its position, the window built from them is drained
/// in input order.
pub proof fn lemma_arrival_order_irrelevant<O>(
    outs: Seq<O>,
    pairs: Seq<(usize, O)>,
    window: Seq<O>,
)
    requires
        positions_complete(pairs, outs.len()),
        forall|k: int| 0 <= k < pairs.len() ==> (#[trigger] pairs[k]).1 == outs[pairs[k].0 as int],
        window_of(pairs, window),
    ensures
        drain_order(window) == outs,
{
    assert forall|p: int| 0 <= p < outs.len() implies #[trigger] drain_order(window)[p] == outs[p] by {
        assert(has_position(pairs, p));
        let k = choose|k: int| 0 <= k < pairs.len() && (#[trigger] pairs[k]).0 == p;
        assert(window[window.len() - 1 - pairs[k].0] == pairs[k].1);
    }
    assert(drain_order(window) =~= outs);
}

/// The batches cover the input exactly, in order: nothing is dropped or
/// repeated, no batch is empty or larger than the pool, and only the last
/// may be short.
pub proof fn lemma_batches_partition<T>(s: Seq<T>, w: nat)
    requires
        w >= 1,
    ensures
        batches(s, w).flatten() == s,
        batches(s, w).flatten().len() == s.len(),
        forall|i: int|
            0 <= i < batches(s, w).len() ==> 0 < (#[trigger] batches(s, w)[i]).len() <= w,
        forall|i: int|
            0 <= i < batches(s, w).len() - 1 ==> (#[trigger] batches(s, w)[i]).len() == w,
    decreases s.len(),
{
    if s.len() > 0 {
        let n = batch_len(s.len(), w);
        let rest = s.skip(n as int);
        lemma_batches_partition(rest, w);
        let b = batches(s, w);
        assert(b.drop_first() =~= batches(rest, w));
        assert(s.take(n as int) + rest =~= s);
        assert forall|i: int| 0 <= i < b.len() implies 0 < (#[trigger] b[i]).len() <= w by {
            if i > 0 {
                assert(b[i] == batches(rest, w)[i - 1]);
            }
        }
        assert forall|i: int| 0 <= i < b.len() - 1 implies (#[trigger] b[i]).len() == w by {
            if i > 0 {
                assert(b[i] == batches(rest, w)[i - 1]);
            } else {
                assert(rest.len() > 0);
            }
        }
    } else {
        assert(batches(s, w) =~= Seq::<Seq<T>>::empty());
    }
}

/// Mapping batch by batch and handing the batches out one after the other
/// gives the sequential map, for every pool size.
pub proof fn lemma_batched_map_is_map<T, O>(s: Seq<T>, w: nat, f: spec_fn(T) -> O)
    requires
        w >= 1,
    ensures
        batched_map(s, w, f) == s.map_values(f),
    decreases s.len(),
{
    if s.len() > 0 {
        let n = batch_len(s.len(), w);
        let rest = s.skip(n as int);
        lemma_batched_map_is_map(rest, w, f);
        let mapped = batches(s, w).map_values(|b: Seq<T>| b.map_values(f));
        assert(mapped.drop_first() =~= batches(rest, w).map_values(|b: Seq<T>| b.map_values(f)));
        assert(mapped.first() == s.take(n as int).map_values(f));
        assert(s.take(n as int).map_values(f) + rest.map_values(f) =~= s.map_values(f));
    } else {
        assert(batches(s, w).map_values(|b: Seq<T>| b.map_values(f)) =~= Seq::<Seq<O>>::empty());
        assert(s.map_values(f) =~= Seq::<O>::empty());
    }
}

/// With a single worker every batch holds one item, and the adapter maps
/// the items one at a time, exactly as a sequential map.
pub proof fn lemma_one_worker_is_sequential<T, O>(s: Seq<T>, f: spec_fn(T) -> O)
    ensures
        forall|i: int| 0 <= i < batches(s, 1).len() ==> (#[trigger] batches(s, 1)[i]).len() == 1,
        batched_map(s, 1, f) == s.map_values(f),
{
    lemma_batches_partition(s, 1);
    lemma_batched_map_is_map(s, 1, f);
}

/// Two runs over the same input with the same function hand out the same
/// outputs, whatever their pool sizes.
pub proof fn lemma_runs_agree<T, O>(s: Seq<T>, w1: nat, w2: nat, f: spec_fn(T) -> O)
    requires
        w1 >= 1,
        w2 >= 1,
    ensures
        batched_map(s, w1, f) == batched_map(s, w2, f),
{
    lemma_batched_map_is_map(s, w1, f);
    lemma_batched_map_is_map(s, w2, f);
}

} // verus!
