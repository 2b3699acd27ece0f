use rayon::iter::{IntoParallelIterator, ParallelIterator};
use schunks::{Schunk, Schunks, SchunksTools};
use std::sync::Mutex;

fn drain<I: Iterator>(mut c: Schunk<I>) -> Vec<I::Item> {
    let mut out = Vec::new();
    while let Some(x) = c.next() {
        out.push(x);
    }
    out
}

fn all_chunks<T>(items: Vec<T>, size: usize) -> Vec<Vec<T>> {
    let mut cursor = items.into_iter().schunks(size);
    let mut out = Vec::new();
    while let Some(c) = cursor.next() {
        out.push(drain(c));
    }
    out
}

/// Each of `workers` threads draws chunks from one shared cursor until it is
/// exhausted; returns every worker's chunks.
fn par_chunks<T: Send>(items: Vec<T>, size: usize, workers: usize) -> Vec<Vec<Vec<T>>> {
    let cursor: Mutex<Schunks<std::vec::IntoIter<T>>> = Mutex::new(items.into_iter().schunks(size));
    let pool = rayon::ThreadPoolBuilder::new().num_threads(workers).build().unwrap();
    pool.install(|| {
        (0..workers)
            .into_par_iter()
            .map(|_| {
                let mut mine = Vec::new();
                loop {
                    let next = cursor.lock().unwrap().next();
                    match next {
                        Some(c) => mine.push(drain(c)),
                        None => break,
                    }
                }
                mine
            })
            .collect::<Vec<_>>()
    })
}

#[test]
fn sequential_chunks_and_sums() {
    let chunks = all_chunks(vec![1, 1, 2, -2, 6, 0, 3, 1], 3);
    assert_eq!(chunks, vec![vec![1, 1, 2], vec![-2, 6, 0], vec![3, 1]]);
    let sums: Vec<i32> = chunks.iter().map(|c| c.iter().sum()).collect();
    assert_eq!(sums, vec![4, 4, 4]);
}

#[test]
fn parallel_sums_sorted() {
    let per_worker = par_chunks(vec![1, 1, 0, -2, 8, 0, 3, 1], 3, 4);
    let mut sums: Vec<i32> = per_worker
        .into_iter()
        .flatten()
        .map(|c| c.iter().sum())
        .collect();
    sums.sort_unstable();
    assert_eq!(sums, vec![2, 4, 6]);
}

#[test]
fn empty_source_is_exhausted_at_once() {
    let mut cursor = Vec::<i32>::new().into_iter().schunks(5);
    assert!(cursor.next().is_none());
    assert!(cursor.next().is_none());
}

#[test]
fn exhausted_cursor_stays_exhausted() {
    let mut cursor = vec![7, 8].into_iter().schunks(5);
    assert_eq!(drain(cursor.next().unwrap()), vec![7, 8]);
    assert!(cursor.next().is_none());
    assert!(cursor.next().is_none());
}

#[test]
fn drained_chunk_stays_drained() {
    let mut cursor = vec![1, 2, 3].into_iter().schunks(2);
    let mut c = cursor.next().unwrap();
    assert_eq!(c.next(), Some(1));
    assert_eq!(c.next(), Some(2));
    assert_eq!(c.next(), None);
    assert_eq!(c.next(), None);
    assert_eq!(c.next(), None);
}

#[test]
fn chunk_count_and_lengths() {
    for len in 0..40usize {
        for size in 1..12usize {
            let chunks = all_chunks((0..len).collect(), size);
            assert_eq!(chunks.len(), (len + size - 1) / size);
            for (i, c) in chunks.iter().enumerate() {
                if i + 1 < chunks.len() {
                    assert_eq!(c.len(), size);
                } else if len % size == 0 {
                    assert_eq!(c.len(), size);
                } else {
                    assert_eq!(c.len(), len % size);
                }
            }
        }
    }
}

#[test]
fn exact_multiple_has_full_last_chunk() {
    let chunks = all_chunks((0..12).collect(), 4);
    assert_eq!(chunks, vec![vec![0, 1, 2, 3], vec![4, 5, 6, 7], vec![8, 9, 10, 11]]);
}

#[test]
fn chunk_size_one_and_larger_than_source() {
    assert_eq!(all_chunks(vec![5, 6, 7], 1), vec![vec![5], vec![6], vec![7]]);
    assert_eq!(all_chunks(vec![5, 6, 7], 10), vec![vec![5, 6, 7]]);
    assert_eq!(all_chunks(vec![5, 6, 7], usize::MAX), vec![vec![5, 6, 7]]);
}

#[test]
fn concatenation_restores_source() {
    let source: Vec<u32> = (0..100).map(|i| (i * 37) % 11).collect();
    for size in 1..20usize {
        let joined: Vec<u32> = all_chunks(source.clone(), size).into_iter().flatten().collect();
        assert_eq!(joined, source);
    }
}

#[test]
fn any_worker_count_keeps_every_item_once() {
    let source: Vec<u32> = (0..500).map(|i| (i * 13) % 97).collect();
    let mut expected = source.clone();
    expected.sort_unstable();
    for workers in 1..6usize {
        let per_worker = par_chunks(source.clone(), 7, workers);
        assert_eq!(per_worker.len(), workers);
        let chunks: Vec<Vec<u32>> = per_worker.into_iter().flatten().collect();
        assert_eq!(chunks.len(), (500 + 6) / 7);
        for c in &chunks {
            assert!(c.len() == 7 || c.len() == 500 % 7);
        }
        let mut items: Vec<u32> = chunks.into_iter().flatten().collect();
        items.sort_unstable();
        assert_eq!(items, expected);
    }
}
