use chaos::base::{Config, WriterState};
use chaos::expect::{ExpectedStatus, Pending, Predictions};
use chaos::gen::{Generator, NextOp};
use chaos::reader::{Reader, VerifyAction, Violation, WriterTracker, POLL_INTERVAL_MILLIS};
use chaos::value::Value;

fn config() -> Config {
    Config {
        key_range: 4..5,
        value_range: 4..5,
    }
}

fn published(index: usize) -> WriterState {
    WriterState {
        index,
        step: 0,
        seed: 42,
        config: config(),
    }
}

/// A tracker of writer 7 that has replayed `step` operations.
fn tracker_at(step: usize) -> WriterTracker {
    let mut t = WriterTracker::new(&published(7));
    for _ in 0..step {
        assert!(matches!(t.verify(step + 1), Ok(VerifyAction::Read(_))));
    }
    assert_eq!(t.accessed_step(), step);
    t
}

fn stored(step: usize, payload: &[u8]) -> Option<Vec<u8>> {
    Some(Value::new(7, step, payload.to_vec()).encode())
}

fn put(key: &[u8], value: &[u8]) -> NextOp {
    NextOp::Put {
        key: key.to_vec(),
        value: value.to_vec(),
    }
}

fn delete(key: &[u8]) -> NextOp {
    NextOp::Delete { key: key.to_vec() }
}

#[test]
fn poll_interval_is_ten_milliseconds() {
    assert_eq!(POLL_INTERVAL_MILLIS, 10);
}

#[test]
fn a_new_tracker_is_at_step_zero_with_nothing_pending() {
    let t = WriterTracker::new(&published(7));
    assert_eq!(t.writer(), 7);
    assert_eq!(t.accessed_step(), 0);
    assert_eq!(t.unresolved_count(), 0);
}

#[test]
fn verify_behind_the_writer_replays_the_writers_operation() {
    let mut t = WriterTracker::new(&published(7));
    let mut replica = Generator::new(42, 7, config());
    for step in 1..=20 {
        match t.verify(20) {
            Ok(VerifyAction::Read(op)) => assert_eq!(op, replica.next_op()),
            other => panic!("no operation at step {}: {:?}", step, other),
        }
        assert_eq!(t.accessed_step(), step);
    }
}

#[test]
fn verify_level_with_the_writer_starts_the_round_over() {
    let mut t = tracker_at(3);
    assert_eq!(t.verify(3), Ok(VerifyAction::RoundComplete));
    assert_eq!(t.accessed_step(), 0);
    let mut replica = Generator::new(42, 7, config());
    assert_eq!(t.verify(3), Ok(VerifyAction::Read(replica.next_op())));
    assert_eq!(t.accessed_step(), 1);
}

#[test]
fn verify_at_step_zero_of_an_idle_writer_completes_an_empty_round() {
    let mut t = WriterTracker::new(&published(7));
    assert_eq!(t.verify(0), Ok(VerifyAction::RoundComplete));
    assert_eq!(t.accessed_step(), 0);
}

#[test]
fn verify_level_with_predictions_left_is_a_violation() {
    let mut t = tracker_at(3);
    assert_eq!(t.verify_next_op(&put(b"k1", b"v1"), None), Ok(()));
    assert_eq!(t.verify_next_op(&delete(b"k2"), stored(2, b"old")), Ok(()));
    assert_eq!(t.unresolved_count(), 2);
    let found = t.verify(3);
    assert_eq!(
        found,
        Err(Violation::Unresolved {
            writer: 7,
            accessed_step: 3,
            pending: vec![
                Pending {
                    key: b"k1".to_vec(),
                    status: ExpectedStatus::Deleted
                },
                Pending {
                    key: b"k2".to_vec(),
                    status: ExpectedStatus::Existed {
                        value: b"old".to_vec(),
                        step: 2
                    }
                },
            ],
        })
    );
    assert_eq!(t.accessed_step(), 3);
    assert_eq!(t.unresolved_count(), 2);
}

#[test]
fn verify_and_reset_clears_step_and_rewinds_the_generator() {
    let mut t = tracker_at(5);
    assert_eq!(t.verify_and_reset(), Ok(()));
    assert_eq!(t.accessed_step(), 0);
    assert_eq!(t.unresolved_count(), 0);
    let mut replica = Generator::new(42, 7, config());
    assert_eq!(t.verify(9), Ok(VerifyAction::Read(replica.next_op())));
}

#[test]
fn reset_drops_predictions() {
    let mut t = tracker_at(2);
    assert_eq!(t.verify_next_op(&put(b"k", b"v"), None), Ok(()));
    assert_eq!(t.unresolved_count(), 1);
    t.reset();
    assert_eq!(t.unresolved_count(), 0);
    assert_eq!(t.accessed_step(), 0);
}

#[test]
fn delete_of_an_absent_key_has_converged() {
    let mut t = tracker_at(4);
    assert_eq!(t.verify_next_op(&delete(b"k"), None), Ok(()));
    assert_eq!(t.unresolved_count(), 0);
}

#[test]
fn delete_of_a_present_key_expects_the_value_to_go() {
    let mut t = tracker_at(4);
    assert_eq!(t.verify_next_op(&delete(b"k"), stored(3, b"v")), Ok(()));
    assert_eq!(
        t.expected(&b"k".to_vec()),
        Some(&ExpectedStatus::Existed {
            value: b"v".to_vec(),
            step: 3
        })
    );
}

#[test]
fn put_of_an_absent_key_records_that_it_was_absent() {
    let mut t = tracker_at(4);
    assert_eq!(t.verify_next_op(&put(b"k", b"v"), None), Ok(()));
    assert_eq!(t.expected(&b"k".to_vec()), Some(&ExpectedStatus::Deleted));
}

#[test]
fn put_seen_at_its_own_step_with_its_payload_is_settled() {
    let mut t = tracker_at(4);
    assert_eq!(t.verify_next_op(&put(b"k", b"v"), stored(4, b"v")), Ok(()));
    assert_eq!(t.unresolved_count(), 0);
}

#[test]
fn put_seen_at_its_own_step_with_another_payload_is_a_mismatch() {
    let mut t = tracker_at(4);
    assert_eq!(
        t.verify_next_op(&put(b"k", b"v"), stored(4, b"w")),
        Err(Violation::Mismatch {
            writer: 7,
            key: b"k".to_vec(),
            step: 4,
            expected: b"v".to_vec(),
            observed: b"w".to_vec(),
        })
    );
    assert_eq!(t.unresolved_count(), 0);
}

#[test]
fn put_seen_one_step_behind_records_the_stored_value() {
    let mut t = tracker_at(4);
    assert_eq!(t.verify_next_op(&put(b"k", b"new"), stored(3, b"old")), Ok(()));
    assert_eq!(
        t.expected(&b"k".to_vec()),
        Some(&ExpectedStatus::Existed {
            value: b"old".to_vec(),
            step: 3
        })
    );
}

#[test]
fn put_seen_ahead_of_the_reader_is_a_violation() {
    let mut t = tracker_at(4);
    assert_eq!(
        t.verify_next_op(&put(b"k", b"v"), stored(5, b"v")),
        Err(Violation::WriterAhead {
            writer: 7,
            key: b"k".to_vec(),
            accessed_step: 4,
            stored_step: 5,
            observed: b"v".to_vec(),
        })
    );
}

#[test]
fn delete_seen_ahead_of_the_reader_is_recorded() {
    let mut t = tracker_at(4);
    assert_eq!(t.verify_next_op(&delete(b"k"), stored(9, b"v")), Ok(()));
    assert_eq!(
        t.expected(&b"k".to_vec()),
        Some(&ExpectedStatus::Existed {
            value: b"v".to_vec(),
            step: 9
        })
    );
}

#[test]
fn staleness_is_more_than_one_step_behind() {
    for accessed in 0..8usize {
        for step in 0..10usize {
            for op in [delete(b"k"), put(b"k", b"v")] {
                let mut t = tracker_at(accessed);
                let r = t.verify_next_op(&op, stored(step, b"v"));
                let stale = step + 1 < accessed;
                assert_eq!(
                    matches!(r, Err(Violation::Stale { .. })),
                    stale,
                    "stored step {} read at step {}",
                    step,
                    accessed
                );
                if stale {
                    assert_eq!(
                        r,
                        Err(Violation::Stale {
                            writer: 7,
                            key: b"k".to_vec(),
                            accessed_step: accessed,
                            stored_step: step,
                            observed: b"v".to_vec(),
                        })
                    );
                }
                if matches!(op, NextOp::Delete { .. }) {
                    assert_eq!(r.is_err(), stale);
                }
            }
        }
    }
}

#[test]
fn staleness_does_not_overflow_at_the_largest_step() {
    let mut t = tracker_at(2);
    assert_eq!(
        t.verify_next_op(&delete(b"k"), stored(usize::MAX, b"v")),
        Ok(())
    );
    let mut t = tracker_at(2);
    assert!(matches!(
        t.verify_next_op(&put(b"k", b"v"), stored(usize::MAX, b"v")),
        Err(Violation::WriterAhead {
            stored_step: usize::MAX,
            ..
        })
    ));
}

#[test]
fn a_stored_value_without_payload_is_corrupt() {
    let mut t = tracker_at(1);
    assert_eq!(
        t.verify_next_op(&delete(b"k"), Some(vec![0u8; 16])),
        Err(Violation::Corrupt {
            writer: 7,
            key: b"k".to_vec(),
            accessed_step: 1,
            len: 16,
        })
    );
    assert_eq!(
        t.verify_next_op(&put(b"k", b"v"), Some(Vec::new())),
        Err(Violation::Corrupt {
            writer: 7,
            key: b"k".to_vec(),
            accessed_step: 1,
            len: 0,
        })
    );
}

#[test]
fn a_delete_confirms_that_the_key_was_absent() {
    let mut t = tracker_at(3);
    assert_eq!(t.verify_next_op(&put(b"k", b"v"), None), Ok(()));
    assert_eq!(t.unresolved_count(), 1);
    t.advance_expect_status(&delete(b"k"));
    assert_eq!(t.unresolved_count(), 0);
}

#[test]
fn a_delete_does_not_confirm_a_value() {
    let mut t = tracker_at(3);
    assert_eq!(t.verify_next_op(&delete(b"k"), stored(3, b"v")), Ok(()));
    t.advance_expect_status(&delete(b"k"));
    assert_eq!(t.unresolved_count(), 1);
}

#[test]
fn a_put_confirms_a_value_of_the_step_being_replayed() {
    let mut t = tracker_at(3);
    assert_eq!(t.verify_next_op(&delete(b"k"), stored(4, b"v")), Ok(()));
    t.advance_expect_status(&put(b"k", b"v"));
    assert_eq!(t.unresolved_count(), 1);
    assert!(matches!(t.verify(9), Ok(VerifyAction::Read(_))));
    assert_eq!(t.accessed_step(), 4);
    t.advance_expect_status(&put(b"other", b"v"));
    assert_eq!(t.unresolved_count(), 1);
    t.advance_expect_status(&put(b"k", b"v"));
    assert_eq!(t.unresolved_count(), 0);
}

#[test]
fn a_put_does_not_confirm_that_the_key_was_absent() {
    let mut t = tracker_at(3);
    assert_eq!(t.verify_next_op(&put(b"k", b"v"), None), Ok(()));
    t.advance_expect_status(&put(b"k", b"v"));
    assert_eq!(t.expected(&b"k".to_vec()), Some(&ExpectedStatus::Deleted));
}

#[test]
fn confirming_twice_is_confirming_once() {
    let mut t = tracker_at(3);
    assert_eq!(t.verify_next_op(&put(b"a", b"v"), None), Ok(()));
    assert_eq!(t.verify_next_op(&put(b"b", b"v"), None), Ok(()));
    t.advance_expect_status(&delete(b"a"));
    assert_eq!(t.unresolved_count(), 1);
    t.advance_expect_status(&delete(b"a"));
    assert_eq!(t.unresolved_count(), 1);
    assert_eq!(t.expected(&b"b".to_vec()), Some(&ExpectedStatus::Deleted));
}

#[test]
fn verify_next_op_confirms_before_it_judges() {
    let mut t = tracker_at(3);
    assert_eq!(t.verify_next_op(&put(b"k", b"v"), None), Ok(()));
    assert_eq!(t.verify_next_op(&delete(b"k"), None), Ok(()));
    assert_eq!(t.unresolved_count(), 0);
}

#[test]
fn a_later_prediction_replaces_an_earlier_one() {
    let mut t = tracker_at(3);
    assert_eq!(t.verify_next_op(&put(b"k", b"v"), None), Ok(()));
    assert_eq!(t.verify_next_op(&put(b"k", b"v"), stored(2, b"u")), Ok(()));
    assert_eq!(t.unresolved_count(), 1);
    assert_eq!(
        t.expected(&b"k".to_vec()),
        Some(&ExpectedStatus::Existed {
            value: b"u".to_vec(),
            step: 2
        })
    );
}

#[test]
fn predictions_behave_as_a_map() {
    let mut p = Predictions::new();
    assert!(p.is_empty());
    assert_eq!(p.len(), 0);
    p.insert(b"a".to_vec(), ExpectedStatus::Deleted);
    p.insert(
        b"b".to_vec(),
        ExpectedStatus::Existed {
            value: vec![1],
            step: 2,
        },
    );
    p.insert(
        b"a".to_vec(),
        ExpectedStatus::Existed {
            value: vec![3],
            step: 4,
        },
    );
    assert!(!p.is_empty());
    assert_eq!(p.len(), 2);
    assert_eq!(
        p.get(&b"a".to_vec()),
        Some(&ExpectedStatus::Existed {
            value: vec![3],
            step: 4
        })
    );
    assert_eq!(p.get(&b"c".to_vec()), None);
    p.remove(&b"c".to_vec());
    assert_eq!(p.len(), 2);
    p.remove(&b"a".to_vec());
    assert_eq!(p.len(), 1);
    assert_eq!(p.get(&b"a".to_vec()), None);
    assert_eq!(
        p.pending(),
        vec![Pending {
            key: b"b".to_vec(),
            status: ExpectedStatus::Existed {
                value: vec![1],
                step: 2
            }
        }]
    );
    p.remove(&b"b".to_vec());
    assert!(p.is_empty());
}

#[test]
fn a_reader_tracks_its_writers_in_order() {
    let writers = vec![published(2), published(5), published(8)];
    let mut reader = Reader::new(1, &writers);
    assert_eq!(reader.index(), 1);
    assert_eq!(reader.tracker_count(), 3);
    for (i, w) in [2usize, 5, 8].iter().enumerate() {
        assert_eq!(reader.tracker(i).writer(), *w);
        assert_eq!(reader.tracker(i).accessed_step(), 0);
    }
    let mut replica = Generator::new(42, 5, config());
    assert_eq!(
        reader.verify(1, 3),
        Ok(VerifyAction::Read(replica.next_op()))
    );
    assert_eq!(reader.tracker(0).accessed_step(), 0);
    assert_eq!(reader.tracker(1).accessed_step(), 1);
    assert_eq!(reader.tracker(2).accessed_step(), 0);
}

#[test]
fn a_reader_judges_for_the_tracker_it_is_asked_about() {
    let writers = vec![published(2), published(5)];
    let mut reader = Reader::new(0, &writers);
    assert!(matches!(reader.verify(1, 3), Ok(VerifyAction::Read(_))));
    assert_eq!(reader.verify_next_op(1, &put(b"k", b"v"), None), Ok(()));
    assert_eq!(reader.tracker(0).unresolved_count(), 0);
    assert_eq!(reader.tracker(1).unresolved_count(), 1);
    reader.advance_expect_status(0, &delete(b"k"));
    assert_eq!(reader.tracker(1).unresolved_count(), 1);
    reader.advance_expect_status(1, &delete(b"k"));
    assert_eq!(reader.tracker(1).unresolved_count(), 0);
    assert_eq!(reader.verify_next_op(1, &put(b"k", b"v"), None), Ok(()));
    assert_eq!(
        reader.verify_and_reset_tracker(1),
        Err(Violation::Unresolved {
            writer: 5,
            accessed_step: 1,
            pending: vec![Pending {
                key: b"k".to_vec(),
                status: ExpectedStatus::Deleted
            }],
        })
    );
    assert_eq!(reader.verify_and_reset_tracker(0), Ok(()));
    assert_eq!(reader.tracker(0).accessed_step(), 0);
}
