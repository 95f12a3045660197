use chaos::plan::{reader_count, tracked_writers, writer_seed};

#[test]
fn writer_seeds_count_up_from_the_base_seed() {
    assert_eq!(writer_seed(100, 0), 100);
    assert_eq!(writer_seed(100, 7), 107);
}

#[test]
fn writer_seeds_wrap_round() {
    assert_eq!(writer_seed(u64::MAX, 1), 0);
    assert_eq!(writer_seed(u64::MAX - 1, 5), 3);
}

#[test]
fn no_more_readers_than_writers_are_started() {
    assert_eq!(reader_count(1, 1), 1);
    assert_eq!(reader_count(3, 5), 3);
    assert_eq!(reader_count(5, 3), 3);
    assert_eq!(reader_count(0, 3), 0);
    assert_eq!(reader_count(3, 0), 0);
}

#[test]
fn writers_are_dealt_round_robin() {
    assert_eq!(tracked_writers(0, 2, 5), vec![0, 2, 4]);
    assert_eq!(tracked_writers(1, 2, 5), vec![1, 3]);
    assert_eq!(tracked_writers(0, 1, 4), vec![0, 1, 2, 3]);
    assert_eq!(tracked_writers(2, 3, 3), vec![2]);
    assert_eq!(tracked_writers(3, 4, 3), Vec::<usize>::new());
    assert_eq!(tracked_writers(0, 3, 0), Vec::<usize>::new());
}

#[test]
fn round_robin_does_not_overflow_near_the_largest_index() {
    assert_eq!(
        tracked_writers(usize::MAX - 3, 2, usize::MAX),
        vec![usize::MAX - 3, usize::MAX - 1]
    );
}

#[test]
fn every_writer_has_exactly_one_reader() {
    for readers in 1..6usize {
        for writers in 0..20usize {
            let mut seen = vec![0usize; writers];
            for reader in 0..reader_count(readers, writers) {
                for w in tracked_writers(reader, readers, writers) {
                    seen[w] += 1;
                }
            }
            assert!(seen.iter().all(|n| *n == 1));
        }
    }
}
