use chaos::value::{CodecError, Value, FIELD_LEN, HEADER_LEN};

#[test]
fn encode_lays_out_header_then_payload() {
    let v = Value::new(1, 2, vec![9, 8, 7]);
    assert_eq!(
        v.encode(),
        vec![1, 0, 0, 0, 0, 0, 0, 0, 2, 0, 0, 0, 0, 0, 0, 0, 9, 8, 7]
    );
}

#[test]
fn encode_writes_fields_little_endian() {
    let v = Value::new(0x0102_0304_0506_0708, 0x1112_1314_1516_1718, vec![0xff]);
    assert_eq!(
        v.encode(),
        vec![
            0x08, 0x07, 0x06, 0x05, 0x04, 0x03, 0x02, 0x01, 0x18, 0x17, 0x16, 0x15, 0x14, 0x13,
            0x12, 0x11, 0xff
        ]
    );
}

#[test]
fn header_is_two_fields() {
    assert_eq!(FIELD_LEN, 8);
    assert_eq!(HEADER_LEN, 2 * FIELD_LEN);
}

#[test]
fn new_keeps_its_arguments() {
    let v = Value::new(5, 6, vec![1, 2, 3]);
    assert_eq!(v.writer(), 5);
    assert_eq!(v.index(), 6);
    assert_eq!(v.value(), vec![1, 2, 3]);
}

#[test]
fn decode_reads_back_what_encode_wrote() {
    let v = Value::new(0x0102_0304, 77, b"payload".to_vec());
    let back = Value::decode(&v.encode()).unwrap();
    assert_eq!(back.writer(), 0x0102_0304);
    assert_eq!(back.index(), 77);
    assert_eq!(back.value(), b"payload".to_vec());
}

#[test]
fn round_trip_holds_for_many_payload_lengths() {
    for len in 1..200usize {
        let payload: Vec<u8> = (0..len).map(|i| (i * 7 + 3) as u8).collect();
        let v = Value::new(len, usize::MAX - len, payload.clone());
        let back = Value::decode(&v.encode()).unwrap();
        assert_eq!(back.writer(), len);
        assert_eq!(back.index(), usize::MAX - len);
        assert_eq!(back.value(), payload);
    }
}

#[test]
fn round_trip_keeps_the_largest_identity_and_step() {
    let v = Value::new(usize::MAX, usize::MAX, vec![0]);
    let bytes = v.encode();
    assert_eq!(&bytes[..16], &[0xff; 16]);
    let back = Value::decode(&bytes).unwrap();
    assert_eq!(back.writer(), usize::MAX);
    assert_eq!(back.index(), usize::MAX);
}

#[test]
fn decode_reads_a_foreign_buffer() {
    let bytes = [
        3u8, 0, 0, 0, 0, 0, 0, 0, 0, 1, 0, 0, 0, 0, 0, 0, b'h', b'i',
    ];
    let v = Value::decode(&bytes).unwrap();
    assert_eq!(v.writer(), 3);
    assert_eq!(v.index(), 256);
    assert_eq!(v.value(), b"hi".to_vec());
}

#[test]
fn decode_refuses_a_bare_header() {
    let bytes = [0u8; 16];
    assert!(matches!(
        Value::decode(&bytes),
        Err(CodecError::TooShort { len: 16 })
    ));
}

#[test]
fn decode_refuses_every_short_buffer() {
    for len in 0..=16usize {
        let bytes = vec![1u8; len];
        match Value::decode(&bytes) {
            Err(CodecError::TooShort { len: got }) => assert_eq!(got, len),
            Ok(_) => panic!("a buffer of {} bytes was read as a value", len),
        }
    }
}

#[test]
fn decode_accepts_one_payload_byte() {
    let bytes = vec![0u8; 17];
    let v = Value::decode(&bytes).unwrap();
    assert_eq!(v.value(), vec![0u8]);
}

#[test]
fn a_value_without_payload_does_not_read_back() {
    let v = Value::new(1, 1, Vec::new());
    let bytes = v.encode();
    assert_eq!(bytes.len(), 16);
    assert!(Value::decode(&bytes).is_err());
}
