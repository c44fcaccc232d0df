//! The reorder buffer: results of one batch arrive tagged with their
//! position, in any order, and leave as a window that is drained from its
//! end in ascending position order.

use vstd::prelude::*;

verus! {

/// The pairs of a finished batch of `size` tasks carry every position in
/// `0..size` exactly once, and no other position.
pub open spec fn positions_complete<O>(pairs: Seq<(usize, O)>, size: nat) -> bool {
    &&& pairs.len() == size
    &&& forall|k: int| 0 <= k < pairs.len() ==> (#[trigger] pairs[k]).0 < size
    &&& forall|j: int, k: int|
        0 <= j < k < pairs.len() ==> (#[trigger] pairs[j]).0 != (#[trigger] pairs[k]).0
    &&& forall|p: int| 0 <= p < size ==> #[trigger] has_position(pairs, p)
}

/// Some pair carries position `p`.
pub open spec fn has_position<O>(pairs: Seq<(usize, O)>, p: int) -> bool {
    exists|k: int| 0 <= k < pairs.len() && (#[trigger] pairs[k]).0 == p
}

/// `window`, read from its last element back to its first, holds the output
/// of position 0, then of position 1, and so on.
pub open spec fn window_of<O>(pairs: Seq<(usize, O)>, window: Seq<O>) -> bool {
    &&& window.len() == pairs.len()
    &&& forall|k: int|
        0 <= k < pairs.len() ==> window[window.len() - 1 - (#[trigger] pairs[k]).0] == pairs[k].1
}

/// The outputs in the order in which a window hands them out: it is drained
/// from its end.
pub open spec fn drain_order<O>(window: Seq<O>) -> Seq<O> {
    window.reverse()
}

/// Restores the order of a batch of `size` results that arrived as
/// `(position, output)` pairs in completion order. Returns the window, sorted
/// by descending position, exactly when the positions are those of a
/// complete batch; `None` when a result is missing, duplicated or foreign.
pub fn reorder<O>(size: usize, pairs: Vec<(usize, O)>) -> (r: Option<Vec<O>>)
    ensures
        r is Some <==> positions_complete(pairs@, size as nat),
        r matches Some(w) ==> window_of(pairs@, w@),
{
    if pairs.len() != size {
        return None;
    }
    let ghost orig = pairs@;
    let mut slots: Vec<Option<O>> = Vec::new();
    let mut i: usize = 0;
    while i < size
        invariant
            i <= size,
            slots@.len() == i,
            forall|p: int| 0 <= p < i ==> slots@[p] is None,
        decreases size - i,
    {
        slots.push(None);
        i = i + 1;
    }
    let mut rest = pairs;
    while rest.len() > 0
        invariant
            slots@.len() == size,
            orig == pairs@,
            orig.len() == size,
            rest@.len() <= size,
            rest@ == orig.take(rest@.len() as int),
            forall|k: int|
                rest@.len() <= k < size ==> (#[trigger] orig[k]).0 < size && slots@[orig[k].0 as int]
                    == Some(orig[k].1),
            forall|j: int, k: int|
                rest@.len() <= j < k < size ==> (#[trigger] orig[j]).0 != (#[trigger] orig[k]).0,
            forall|p: int|
                0 <= p < size && (#[trigger] slots@[p]) is Some ==> exists|k: int|
                    rest@.len() <= k < size && (#[trigger] orig[k]).0 == p,
        decreases rest@.len(),
    {
        let ghost j = rest@.len() - 1;
        assert(orig[j] == rest@[j]);
        let (pos, out) = rest.pop().unwrap();
        if pos >= size {
            assert(!positions_complete(orig, size as nat)) by {
                assert(orig[j].0 >= size);
            }
            return None;
        }
        if slots[pos].is_some() {
            assert(!positions_complete(orig, size as nat)) by {
                let k = choose|k: int| j + 1 <= k < size && (#[trigger] orig[k]).0 == pos;
                assert(orig[j].0 == orig[k].0);
            }
            return None;
        }
        slots.set(pos, Some(out));
        proof {
            assert forall|p: int|
                0 <= p < size && (#[trigger] slots@[p]) is Some implies exists|k: int|
                    rest@.len() <= k < size && (#[trigger] orig[k]).0 == p by {
                if p == pos {
                    assert(orig[j].0 == p);
                }
            }
        }
    }
    let ghost full = slots@;
    let mut window: Vec<O> = Vec::new();
    while slots.len() > 0
        invariant
            full.len() == size,
            orig == pairs@,
            orig.len() == size,
            slots@.len() + window@.len() == size,
            slots@ == full.take(slots@.len() as int),
            forall|k: int|
                0 <= k < size ==> (#[trigger] orig[k]).0 < size && full[orig[k].0 as int] == Some(
                    orig[k].1,
                ),
            forall|j: int, k: int| 0 <= j < k < size ==> (#[trigger] orig[j]).0 != (#[trigger] orig[k]).0,
            forall|q: int|
                0 <= q < window@.len() ==> full[size - 1 - q] == Some(#[trigger] window@[q]),
        decreases slots@.len(),
    {
        let ghost p = slots@.len() - 1;
        assert(full[p] == slots@[p]);
        match slots.pop().unwrap() {
            Some(out) => {
                window.push(out);
            },
            None => {
                assert(!positions_complete(orig, size as nat)) by {
                    if positions_complete(orig, size as nat) {
                        assert(has_position(orig, p));
                        let k = choose|k: int| 0 <= k < orig.len() && (#[trigger] orig[k]).0 == p;
                        assert(full[orig[k].0 as int] == Some(orig[k].1));
                    }
                }
                return None;
            },
        }
    }
    proof {
        assert forall|p: int| 0 <= p < size implies #[trigger] has_position(orig, p) by {
            assert(full[p] == Some(window@[size - 1 - p]));
            assert(full[p] is Some);
            assert(exists|k: int| 0 <= k < size && (#[trigger] orig[k]).0 == p);
        }
        assert forall|k: int| 0 <= k < orig.len() implies window@[window@.len() - 1 - (
        #[trigger] orig[k]).0] == orig[k].1 by {
            let q = size - 1 - orig[k].0;
            assert(full[size - 1 - q] == Some(window@[q]));
        }
    }
    Some(window)
}

} // verus!
