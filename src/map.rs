//! The adapter: a state machine that hands out buffered results, refills its
//! window one batch at a time, and stops for good once the source is dry or
//! a batch came back incomplete.

use crate::batch::{batch_len, tag_batch, tagged, take_batch};
use crate::laws::batches;
use crate::pool::{another_sender, default_pool, max_count, open_channel, pool_with, receive, share, submit};
use crate::reorder::{drain_order, has_position, positions_complete, reorder, window_of};
use std::sync::mpsc::Receiver;
use std::sync::Arc;
use threadpool::ThreadPool;
use vstd::prelude::*;
use vstd::std_specs::iter::IteratorSpec;

verus! {

/// Every result carries an output that the function can give for the item
/// of the task at the result's position.
pub open spec fn carries_outputs<T, O, F: Fn(T) -> O>(
    received: Seq<(usize, O)>,
    submitted: Seq<(usize, T)>,
    function: F,
) -> bool {
    forall|k: int|
        0 <= k < received.len() ==> (#[trigger] received[k]).0 < submitted.len()
            && function.ensures((submitted[received[k].0 as int].1,), received[k].1)
}

/// Maps the items of `iterator` with `function` on a pool of worker threads,
/// handing the outputs out in the order of their items.
pub struct ThreadedMap<I: Iterator, F, O> {
    iterator: I,
    submitted: Ghost<Seq<(usize, I::Item)>>,
    received: Ghost<Seq<(usize, O)>>,
    function: Arc<F>,
    thread_pool: ThreadPool,
    workers: usize,
    window: Vec<O>,
    exhausted: bool,
    failed: bool,
}

impl<I, F, O> ThreadedMap<I, F, O>
    where
        I: Iterator,
        I::Item: Send + 'static,
        F: Fn(I::Item) -> O + Send + Sync + 'static,
        O: Send + 'static,
{
    /// The source items are pulled from.
    pub closed spec fn source(&self) -> I {
        self.iterator
    }

    /// The mapping function.
    pub closed spec fn function(&self) -> F {
        *self.function
    }

    /// The tasks of the latest batch, `(position, item)`, in the order they
    /// were handed to the pool.
    pub closed spec fn submitted(&self) -> Seq<(usize, I::Item)> {
        self.submitted@
    }

    /// The `(position, output)` results of the latest batch, in the order
    /// they arrived.
    pub closed spec fn received(&self) -> Seq<(usize, O)> {
        self.received@
    }

    /// The number of workers, which is also the size of a full batch.
    pub closed spec fn worker_count(&self) -> nat {
        self.workers as nat
    }

    /// Outputs computed and not yet handed out; the next one is the last.
    pub closed spec fn window(&self) -> Seq<O> {
        self.window@
    }

    /// No further output comes, and the source is not pulled again.
    pub closed spec fn is_exhausted(&self) -> bool {
        self.exhausted
    }

    /// A batch came back with results missing, duplicated or foreign.
    pub closed spec fn has_failed(&self) -> bool {
        self.failed
    }

    /// The adapter's invariant: a pool of one worker or more, fewer buffered
    /// outputs than workers, nothing buffered once stopped, and a function
    /// that accepts every item.
    pub closed spec fn wf(&self) -> bool {
        &&& self.workers >= 1
        &&& self.window@.len() < self.workers
        &&& self.exhausted ==> self.window@.len() == 0
        &&& self.failed ==> self.exhausted
        &&& forall|x: I::Item| (*self.function).requires((x,))
    }

    /// An adapter over `iterator` with a pool of `num_threads` workers, or
    /// one per CPU when `None`.
    pub fn new(iterator: I, function: F, num_threads: Option<usize>) -> (r: Self)
        requires
            num_threads matches Some(n) ==> n >= 1,
            forall|x: I::Item| function.requires((x,)),
        ensures
            r.wf(),
            r.source() == iterator,
            r.function() == function,
            r.worker_count() >= 1,
            num_threads matches Some(n) ==> r.worker_count() == n,
            r.window().len() == 0,
            !r.is_exhausted(),
            !r.has_failed(),
    {
        let (thread_pool, workers) = match num_threads {
            Some(n) => (pool_with(n), n),
            None => {
                let pool = default_pool();
                let w = max_count(&pool);
                (pool, w)
            },
        };
        ThreadedMap {
            iterator,
            submitted: Ghost(Seq::empty()),
            received: Ghost(Seq::empty()),
            function: Arc::new(function),
            thread_pool,
            workers,
            window: Vec::new(),
            exhausted: false,
            failed: false,
        }
    }

    /// The number of workers, which is also the size of a full batch.
    pub fn workers(&self) -> (r: usize)
        ensures
            r == self.worker_count(),
    {
        self.workers
    }

    /// Whether the adapter has stopped for good.
    pub fn exhausted(&self) -> (r: bool)
        ensures
            r == self.is_exhausted(),
    {
        self.exhausted
    }

    /// Whether the adapter stopped because a batch came back incomplete.
    pub fn failed(&self) -> (r: bool)
        ensures
            r == self.has_failed(),
    {
        self.failed
    }

    /// Pulls the next batch and submits one task per item, tagged with its
    /// position in the batch. Returns the channel the results come back on
    /// and the batch size; no channel for an empty batch.
    fn send_items(&mut self) -> (r: (Option<Receiver<(usize, O)>>, usize))
        requires
            old(self).wf(),
        ensures
            final(self).wf(),
            final(self).function == old(self).function,
            final(self).workers == old(self).workers,
            final(self).window == old(self).window,
            final(self).exhausted == old(self).exhausted,
            final(self).failed == old(self).failed,
            final(self).received == old(self).received,
            r.1 <= old(self).workers,
            r.0 is None <==> r.1 == 0,
            <I as IteratorSpec>::obeys_prophetic_iter_laws(&final(self).iterator)
                == <I as IteratorSpec>::obeys_prophetic_iter_laws(&old(self).iterator),
            <I as IteratorSpec>::obeys_prophetic_iter_laws(&old(self).iterator) ==> {
                let n = batch_len(
                    <I as IteratorSpec>::remaining(&old(self).iterator).len(),
                    old(self).workers as nat,
                );
                &&& r.1 == n
                &&& final(self).submitted@ == tagged(
                    <I as IteratorSpec>::remaining(&old(self).iterator).take(n as int),
                )
                &&& <I as IteratorSpec>::remaining(&final(self).iterator)
                    == <I as IteratorSpec>::remaining(&old(self).iterator).skip(n as int)
            },
    {
        let batch = take_batch(&mut self.iterator, self.workers);
        let ghost pulled = batch@;
        let size = batch.len();
        if size == 0 {
            self.submitted = Ghost(Seq::empty());
            assert(tagged(pulled) =~= Seq::<(usize, I::Item)>::empty());
            return (None, 0);
        }
        let mut tasks = tag_batch(batch);
        let (tx, rx) = open_channel();
        let mut position: usize = 0;
        let ghost mut record: Seq<(usize, I::Item)> = Seq::empty();
        while tasks.len() > 0
            invariant
                pulled.len() == size,
                position + tasks@.len() == size,
                forall|i: int| 0 <= i < tasks@.len() ==> tasks@[i] == tagged(pulled)[size - 1 - i],
                record == tagged(pulled).take(position as int),
                forall|x: I::Item| (*self.function).requires((x,)),
            decreases tasks@.len(),
        {
            let task = tasks.pop().unwrap();
            proof {
                record = record.push(task);
                assert(record =~= tagged(pulled).take(position + 1));
            }
            submit(&self.thread_pool, another_sender(&tx), task, share(&self.function));
            position = position + 1;
        }
        assert(record =~= tagged(pulled));
        self.submitted = Ghost(record);
        (Some(rx), size)
    }

    /// Receives up to `size` results, in the order they complete; fewer when
    /// every task has ended and some never reported.
    fn receive_batch(rx: Receiver<(usize, O)>, size: usize) -> (r: Vec<(usize, O)>)
        ensures
            r@.len() <= size,
    {
        let mut pairs: Vec<(usize, O)> = Vec::new();
        let mut open = true;
        while open && pairs.len() < size
            invariant
                pairs@.len() <= size,
            decreases size - pairs@.len(), if open { 1int } else { 0int },
        {
            match receive(&rx) {
                Some(pair) => pairs.push(pair),
                None => open = false,
            }
        }
        pairs
    }

    /// The next output in input order, or `None` once the source is dry or a
    /// batch came back incomplete.
    pub fn next(&mut self) -> (r: Option<O>)
        requires
            old(self).wf(),
        ensures
            final(self).wf(),
            final(self).function() == old(self).function(),
            final(self).worker_count() == old(self).worker_count(),
            old(self).window().len() > 0 ==> {
                &&& r == Some(old(self).window().last())
                &&& final(self).window() == old(self).window().drop_last()
                &&& final(self).source() == old(self).source()
                &&& final(self).submitted() == old(self).submitted()
                &&& final(self).received() == old(self).received()
                &&& final(self).is_exhausted() == old(self).is_exhausted()
                &&& final(self).has_failed() == old(self).has_failed()
            },
            old(self).window().len() == 0 && old(self).is_exhausted() ==> {
                &&& r is None
                &&& *final(self) == *old(self)
            },
            old(self).window().len() == 0 && !old(self).is_exhausted() ==> {
                let before = old(self).source();
                let after = final(self).source();
                let n = batch_len(
                    <I as IteratorSpec>::remaining(&before).len(),
                    old(self).worker_count(),
                );
                &&& r is None <==> final(self).is_exhausted()
                &&& r is None ==> final(self).window().len() == 0
                &&& final(self).has_failed() ==> r is None
                &&& <I as IteratorSpec>::obeys_prophetic_iter_laws(&after)
                    == <I as IteratorSpec>::obeys_prophetic_iter_laws(&before)
                &&& <I as IteratorSpec>::obeys_prophetic_iter_laws(&before) ==> {
                    &&& <I as IteratorSpec>::remaining(&after)
                        == <I as IteratorSpec>::remaining(&before).skip(n as int)
                    &&& final(self).submitted() == tagged(
                        <I as IteratorSpec>::remaining(&before).take(n as int),
                    )
                    &&& n > 0 ==> final(self).submitted() == tagged(
                        batches(<I as IteratorSpec>::remaining(&before), old(self).worker_count())[0],
                    )
                    &&& n == 0 ==> r is None && !final(self).has_failed()
                    &&& n > 0 ==> (r is Some <==> positions_complete(final(self).received(), n))
                    &&& r matches Some(v) ==> {
                        let handed = drain_order(final(self).window().push(v));
                        &&& final(self).window().len() + 1 == n
                        &&& window_of(final(self).received(), final(self).window().push(v))
                        &&& carries_outputs(
                            final(self).received(),
                            final(self).submitted(),
                            final(self).function(),
                        ) ==> forall|i: int|
                            0 <= i < n ==> final(self).function().ensures(
                                (final(self).submitted()[i].1,),
                                #[trigger] handed[i],
                            )
                    }
                }
            },
    {
        if self.window.len() > 0 {
            return self.window.pop();
        }
        if self.exhausted {
            return None;
        }
        let (rx, size) = self.send_items();
        let rx = match rx {
            Some(rx) => rx,
            None => {
                self.exhausted = true;
                return None;
            },
        };
        let pairs = Self::receive_batch(rx, size);
        self.received = Ghost(pairs@);
        match reorder(size, pairs) {
            Some(window) => {
                self.window = window;
                let out = self.window.pop();
                proof {
                    let w = self.window@.push(out.unwrap());
                    assert(w =~= window@);
                    let n = size as int;
                    if carries_outputs(self.received@, self.submitted@, self.function()) {
                        assert forall|i: int| 0 <= i < n implies self.function().ensures(
                            (self.submitted@[i].1,),
                            #[trigger] drain_order(w)[i],
                        ) by {
                            assert(has_position(self.received@, i));
                            let k = choose|k: int|
                                0 <= k < self.received@.len() && (#[trigger] self.received@[k]).0 == i;
                            assert(w[w.len() - 1 - self.received@[k].0] == self.received@[k].1);
                        }
                    }
                }
                out
            },
            None => {
                self.failed = true;
                self.exhausted = true;
                None
            },
        }
    }
}

/// Iterators that can be mapped in parallel with their order kept.
pub trait ThreadedMappable<F, O>: Iterator + Sized
    where
        Self::Item: Send + 'static,
        F: Fn(Self::Item) -> O + Send + Sync + 'static,
        O: Send + 'static,
{
    /// Maps the items with `f` on `num_threads` worker threads (one per CPU
    /// when `None`); the adapter hands the outputs out in the order of their
    /// items.
    fn parallel_map(self, f: F, num_threads: Option<usize>) -> (r: ThreadedMap<Self, F, O>)
        requires
            num_threads matches Some(n) ==> n >= 1,
            forall|x: Self::Item| f.requires((x,)),
        ensures
            r.wf(),
            r.source() == self,
            r.function() == f,
            r.worker_count() >= 1,
            num_threads matches Some(n) ==> r.worker_count() == n,
            r.window().len() == 0,
            !r.is_exhausted(),
            !r.has_failed(),
    ;
}

impl<I, F, O> ThreadedMappable<F, O> for I
    where
        I: Iterator,
        I::Item: Send + 'static,
        F: Fn(I::Item) -> O + Send + Sync + 'static,
        O: Send + 'static,
{
    fn parallel_map(self, f: F, num_threads: Option<usize>) -> (r: ThreadedMap<Self, F, O>) {
        ThreadedMap::new(self, f, num_threads)
    }
}

} // verus!
