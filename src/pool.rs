//! The outside pieces the adapter runs on: a `threadpool::ThreadPool` that
//! executes tasks, one `std::sync::mpsc` channel per batch that carries
//! results back, and an `Arc` that shares the mapping function among tasks.

use std::sync::mpsc::{Receiver, Sender};
use std::sync::Arc;
use threadpool::ThreadPool;
use vstd::prelude::*;

verus! {

#[verifier::external_type_specification]
#[verifier::external_body]
pub struct ExThreadPool(ThreadPool);

#[verifier::external_type_specification]
#[verifier::external_body]
#[verifier::reject_recursive_types(T)]
pub struct ExSender<T>(Sender<T>);

#[verifier::external_type_specification]
#[verifier::external_body]
#[verifier::reject_recursive_types(T)]
pub struct ExReceiver<T>(Receiver<T>);

/// Relies on `threadpool::ThreadPool::new`: a pool of `workers` threads. It
/// panics on zero workers, which `requires` leaves out.
#[verifier::external_body]
pub(crate) fn pool_with(workers: usize) -> (r: ThreadPool)
    requires
        workers >= 1,
{
    ThreadPool::new(workers)
}

/// Relies on `threadpool::Builder::new` and `threadpool::Builder::build`: a
/// pool with one thread per CPU that `num_cpus::get` reports.
#[verifier::external_body]
pub(crate) fn default_pool() -> (r: ThreadPool) {
    threadpool::Builder::new().build()
}

/// Relies on `threadpool::ThreadPool::max_count`: the pool's thread count,
/// which every way of building or resizing a pool keeps at one or more.
#[verifier::external_body]
pub(crate) fn max_count(pool: &ThreadPool) -> (r: usize)
    ensures
        r >= 1,
{
    pool.max_count()
}

/// Relies on `std::sync::mpsc::channel`: a fresh channel.
#[verifier::external_body]
pub(crate) fn open_channel<T>() -> (r: (Sender<T>, Receiver<T>)) {
    std::sync::mpsc::channel()
}

/// Relies on `Sender::clone`: one more sender on the same channel.
#[verifier::external_body]
pub(crate) fn another_sender<T>(tx: &Sender<T>) -> (r: Sender<T>) {
    tx.clone()
}

/// Relies on `Sender::send`: hands `message` to the receiver, or drops it
/// when the receiver is gone.
#[verifier::external_body]
pub(crate) fn send<T>(tx: &Sender<T>, message: T) {
    let _ = tx.send(message);
}

/// Relies on `Receiver::recv`: blocks for the next message; `None` once every
/// sender is gone and nothing is left.
#[verifier::external_body]
pub(crate) fn receive<T>(rx: &Receiver<T>) -> (r: Option<T>) {
    rx.recv().ok()
}

/// Relies on `Arc::clone`: another handle to the same allocation, so the
/// same value.
#[verifier::external_body]
pub(crate) fn share<T>(a: &Arc<T>) -> (r: Arc<T>)
    ensures
        r == *a,
{
    Arc::clone(a)
}

/// Relies on `threadpool::ThreadPool::execute`: queues `run_task` on the
/// task `(position, item)` for one of the pool's threads.
#[verifier::external_body]
pub(crate) fn submit<T, O, F>(pool: &ThreadPool, tx: Sender<(usize, O)>, task: (usize, T), function: Arc<F>)
    where
        T: Send + 'static,
        O: Send + 'static,
        F: Fn(T) -> O + Send + Sync + 'static,
    requires
        function.requires((task.1,)),
{
    pool.execute(move || run_task(tx, task, function))
}

/// The body of one task: applies the function to its item and reports the
/// output with the item's position in the batch.
pub(crate) fn run_task<T, O, F: Fn(T) -> O>(tx: Sender<(usize, O)>, task: (usize, T), function: Arc<F>)
    requires
        function.requires((task.1,)),
{
    let (position, item) = task;
    let out = (*function)(item);
    send(&tx, (position, out));
}

} // verus!
