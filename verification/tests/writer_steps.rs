use chaos::base::{Config, WriterState};
use chaos::gen::{Generator, NextOp};
use chaos::value::Value;
use chaos::writer::{StoreRequest, Writer};

fn config() -> Config {
    Config {
        key_range: 4..9,
        value_range: 1..12,
    }
}

#[test]
fn a_new_writer_is_at_step_zero() {
    let w = Writer::new(3, 11, config());
    assert_eq!(w.index(), 3);
    assert_eq!(w.current_step(), 0);
    assert_eq!(w.seed(), 11);
    assert_eq!(w.config(), config());
    assert_eq!(
        w.state(),
        WriterState {
            index: 3,
            step: 0,
            seed: 11,
            config: config()
        }
    );
}

#[test]
fn each_draw_counts_one_step() {
    let mut w = Writer::new(3, 11, config());
    for step in 1..=50 {
        let _ = w.next_op();
        assert_eq!(w.current_step(), step);
        assert_eq!(w.state().step, step);
    }
}

#[test]
fn a_writer_draws_from_the_generator_of_its_identity() {
    let mut w = Writer::new(3, 11, config());
    let mut g = Generator::new(11, 3, config());
    for _ in 0..50 {
        assert_eq!(w.next_op(), g.next_op());
    }
}

#[test]
fn a_delete_asks_the_store_to_delete_the_key() {
    let w = Writer::new(3, 11, config());
    let op = NextOp::Delete {
        key: b"key".to_vec(),
    };
    assert_eq!(
        w.execute(&op),
        StoreRequest::Delete {
            key: b"key".to_vec()
        }
    );
}

#[test]
fn a_put_stores_the_value_under_writer_and_step() {
    let mut w = Writer::new(3, 11, config());
    let _ = w.next_op();
    let _ = w.next_op();
    let op = NextOp::Put {
        key: b"key".to_vec(),
        value: b"val".to_vec(),
    };
    assert_eq!(
        w.execute(&op),
        StoreRequest::Put {
            key: b"key".to_vec(),
            value: vec![3, 0, 0, 0, 0, 0, 0, 0, 2, 0, 0, 0, 0, 0, 0, 0, b'v', b'a', b'l'],
        }
    );
}

#[test]
fn what_a_writer_stores_reads_back_as_its_own() {
    let mut w = Writer::new(6, 1, config());
    for _ in 0..100 {
        let op = w.next_op();
        match (w.execute(&op), op) {
            (StoreRequest::Put { key, value }, NextOp::Put { key: k, value: v }) => {
                assert_eq!(key, k);
                let stored = Value::decode(&value).unwrap();
                assert_eq!(stored.writer(), 6);
                assert_eq!(stored.index(), w.current_step());
                assert_eq!(stored.value(), v);
            }
            (StoreRequest::Delete { key }, NextOp::Delete { key: k }) => assert_eq!(key, k),
            (request, op) => panic!("{:?} does not apply {:?}", request, op),
        }
    }
}
