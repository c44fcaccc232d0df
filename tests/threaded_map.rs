use std::sync::atomic::{AtomicUsize, Ordering};
use std::sync::Arc;
use std::time::{Duration, Instant};
use threaded_map::batch::{tag_batch, take_batch};
use threaded_map::map::{ThreadedMap, ThreadedMappable};
use threaded_map::reorder::reorder;

fn drain<I, F, O>(mut m: ThreadedMap<I, F, O>) -> Vec<O>
where
    I: Iterator,
    I::Item: Send + 'static,
    F: Fn(I::Item) -> O + Send + Sync + 'static,
    O: Send + 'static,
{
    let mut out = Vec::new();
    while let Some(v) = m.next() {
        out.push(v);
    }
    out
}

fn spin(micros: u64) {
    let start = Instant::now();
    while start.elapsed() < Duration::from_micros(micros) {
        std::hint::spin_loop();
    }
}

#[test]
fn example_six_items_three_workers() {
    let items = vec![1, 2, 3, 4, 5, 6];
    let result = drain(items.into_iter().parallel_map(|item: i32| item.to_string(), Some(3)));
    assert_eq!(result, vec!["1", "2", "3", "4", "5", "6"]);
}

#[test]
fn default_pool_size_keeps_order() {
    let items = vec![1, 2, 3, 4, 5, 6];
    let target: Vec<String> = items.iter().map(i32::to_string).collect();
    let m = items.into_iter().parallel_map(|item: i32| item.to_string(), None);
    assert!(m.workers() >= 1);
    assert_eq!(drain(m), target);
}

#[test]
fn order_kept_when_later_items_finish_first() {
    let items: Vec<u64> = (0..40).collect();
    let target: Vec<u64> = items.iter().map(|x| x * x).collect();
    for workers in 1..=7 {
        let m = items.clone().into_iter().parallel_map(
            |x: u64| {
                spin((40 - x) * 50);
                x * x
            },
            Some(workers),
        );
        assert_eq!(m.workers(), workers);
        assert_eq!(drain(m), target);
    }
}

#[test]
fn output_length_equals_input_length() {
    for len in 0..20usize {
        let items: Vec<usize> = (0..len).collect();
        let out = drain(items.into_iter().parallel_map(|x: usize| x + 1, Some(4)));
        assert_eq!(out.len(), len);
        assert_eq!(out, (1..=len).collect::<Vec<usize>>());
    }
}

#[test]
fn at_most_workers_tasks_run_at_once() {
    let active = Arc::new(AtomicUsize::new(0));
    let peak = Arc::new(AtomicUsize::new(0));
    let (a, p) = (active.clone(), peak.clone());
    let m = (0..30u32).parallel_map(
        move |x: u32| {
            let now = a.fetch_add(1, Ordering::SeqCst) + 1;
            p.fetch_max(now, Ordering::SeqCst);
            spin(2000);
            a.fetch_sub(1, Ordering::SeqCst);
            x
        },
        Some(3),
    );
    assert_eq!(drain(m), (0..30u32).collect::<Vec<u32>>());
    assert!(peak.load(Ordering::SeqCst) <= 3);
    assert!(peak.load(Ordering::SeqCst) >= 1);
}

#[test]
fn empty_input_submits_nothing() {
    let calls = Arc::new(AtomicUsize::new(0));
    let c = calls.clone();
    let mut m = Vec::<i32>::new().into_iter().parallel_map(
        move |x: i32| {
            c.fetch_add(1, Ordering::SeqCst);
            x
        },
        Some(4),
    );
    assert_eq!(m.next(), None);
    assert!(m.exhausted());
    assert!(!m.failed());
    assert_eq!(calls.load(Ordering::SeqCst), 0);
}

#[test]
fn one_worker_matches_sequential_map() {
    let items = vec![5, -3, 0, 12, 7];
    let target: Vec<i32> = items.iter().map(|x| x * 2 - 1).collect();
    let out = drain(items.into_iter().parallel_map(|x: i32| x * 2 - 1, Some(1)));
    assert_eq!(out, target);
}

#[test]
fn two_runs_agree() {
    let items: Vec<u64> = (0..25).collect();
    let f = |x: u64| {
        spin((x % 5) * 300);
        format!("<{}>", x)
    };
    let first = drain(items.clone().into_iter().parallel_map(f, Some(4)));
    let second = drain(items.into_iter().parallel_map(f, Some(4)));
    assert_eq!(first, second);
}

#[test]
fn exhausted_adapter_never_pulls_again() {
    let pulls = Arc::new(AtomicUsize::new(0));
    let p = pulls.clone();
    let source = (0..5u8).inspect(move |_| {
        p.fetch_add(1, Ordering::SeqCst);
    });
    let mut m = ThreadedMap::new(source, |x: u8| x, Some(2));
    let mut out = Vec::new();
    while let Some(v) = m.next() {
        out.push(v);
    }
    assert_eq!(out, vec![0, 1, 2, 3, 4]);
    let after = pulls.load(Ordering::SeqCst);
    assert_eq!(after, 5);
    assert_eq!(m.next(), None);
    assert_eq!(m.next(), None);
    assert_eq!(pulls.load(Ordering::SeqCst), after);
}

#[test]
fn failing_task_ends_the_sequence() {
    let mut m = (0..6u32).parallel_map(
        |x: u32| {
            if x == 4 {
                panic!("task gave up");
            }
            x
        },
        Some(3),
    );
    assert_eq!(m.next(), Some(0));
    assert_eq!(m.next(), Some(1));
    assert_eq!(m.next(), Some(2));
    assert_eq!(m.next(), None);
    assert!(m.failed());
    assert!(m.exhausted());
    assert_eq!(m.next(), None);
}

#[test]
fn reorder_restores_positions() {
    let w = reorder(4, vec![(2, 'c'), (0, 'a'), (3, 'd'), (1, 'b')]).unwrap();
    assert_eq!(w, vec!['d', 'c', 'b', 'a']);
}

#[test]
fn reorder_empty_batch() {
    assert_eq!(reorder::<u8>(0, vec![]), Some(vec![]));
}

#[test]
fn reorder_rejects_missing_result() {
    assert_eq!(reorder(3, vec![(0, 1), (2, 3)]), None);
}

#[test]
fn reorder_rejects_duplicate_position() {
    assert_eq!(reorder(3, vec![(0, 1), (2, 3), (2, 4)]), None);
}

#[test]
fn reorder_rejects_foreign_position() {
    assert_eq!(reorder(2, vec![(0, 1), (2, 3)]), None);
}

#[test]
fn take_batch_stops_at_limit() {
    let mut source = vec![10, 20, 30, 40, 50].into_iter();
    assert_eq!(take_batch(&mut source, 3), vec![10, 20, 30]);
    assert_eq!(take_batch(&mut source, 3), vec![40, 50]);
    assert_eq!(take_batch(&mut source, 3), Vec::<i32>::new());
}

#[test]
fn tag_batch_tags_items_with_their_positions() {
    let tasks = tag_batch(vec!["a", "b", "c"]);
    assert_eq!(tasks, vec![(2, "c"), (1, "b"), (0, "a")]);
}

#[test]
fn first_call_of_example_buffers_the_rest_of_the_batch() {
    let mut m = vec![1, 2, 3, 4, 5, 6].into_iter().parallel_map(|x: i32| x.to_string(), Some(3));
    assert_eq!(m.next(), Some("1".to_string()));
    assert_eq!(m.next(), Some("2".to_string()));
    assert_eq!(m.next(), Some("3".to_string()));
    assert_eq!(m.next(), Some("4".to_string()));
    assert!(!m.exhausted());
}
