use repr_similarity::bundle::Table;
use repr_similarity::wire::{
    decode_halves, decode_payload, expected_values, receive, try_receive, IngestError,
};

fn payload_of(values: &[u16]) -> Vec<u8> {
    let mut bytes = Vec::new();
    for v in values {
        bytes.push((v & 0xff) as u8);
        bytes.push((v >> 8) as u8);
    }
    bytes
}

#[test]
fn halves_are_read_low_byte_first() {
    let halves = decode_halves(&[0x00, 0x3c, 0x34, 0x12, 0xff, 0x00]).unwrap();
    assert_eq!(halves, vec![0x3c00, 0x1234, 0x00ff]);
}

#[test]
fn halves_agree_with_the_half_precision_type() {
    let values = [1.0f32, -2.5, 0.0, 65504.0, 0.000061035156];
    let mut bytes = Vec::new();
    let mut patterns = Vec::new();
    for v in values {
        let h = half::f16::from_f32(v);
        bytes.extend_from_slice(&h.to_le_bytes());
        patterns.push(h.to_bits());
    }
    assert_eq!(decode_halves(&bytes), Some(patterns));
}

#[test]
fn empty_payload_has_no_halves() {
    assert_eq!(decode_halves(&[]), Some(Vec::new()));
}

#[test]
fn odd_payload_has_no_reading() {
    assert_eq!(decode_halves(&[1, 2, 3]), None);
    assert_eq!(decode_halves(&[7]), None);
}

#[test]
fn expected_values_is_the_exact_product() {
    assert_eq!(expected_values(4, 3), 12);
    assert_eq!(expected_values(0, 9), 0);
    assert_eq!(
        expected_values(usize::MAX, usize::MAX),
        (usize::MAX as u128) * (usize::MAX as u128)
    );
}

#[test]
fn payload_decodes_into_a_table() {
    let bytes = payload_of(&[0x3c00, 0x4000, 0x4200, 0x4400, 0x4500, 0x4600, 0x4700, 0x4800]);
    let table = decode_payload(&bytes, 2, 2).unwrap();
    assert_eq!(table.rows(), 4);
    assert_eq!(table.width(), 2);
    assert_eq!(
        table.cells(),
        &[0x3c00, 0x4000, 0x4200, 0x4400, 0x4500, 0x4600, 0x4700, 0x4800]
    );
    assert_eq!(table.row(0), &[0x3c00, 0x4000]);
    assert_eq!(table.row(3), &[0x4700, 0x4800]);
}

#[test]
fn odd_payload_is_malformed() {
    let outcome = decode_payload(&[0x00, 0x3c, 0x00], 1, 1);
    assert_eq!(outcome, Err(IngestError::Malformed("odd byte length".to_string())));
}

#[test]
fn odd_payload_is_malformed_whatever_the_shape() {
    let outcome = decode_payload(&[0x00], 0, 0);
    assert_eq!(outcome, Err(IngestError::Malformed("odd byte length".to_string())));
}

#[test]
fn short_payload_is_a_shape_mismatch() {
    let bytes = payload_of(&[0x3c00, 0x4000, 0x4200]);
    let outcome = decode_payload(&bytes, 2, 1);
    assert_eq!(outcome, Err(IngestError::ShapeMismatch { expected: 4, actual: 3 }));
}

#[test]
fn long_payload_is_a_shape_mismatch() {
    let bytes = payload_of(&[0x3c00, 0x4000, 0x4200, 0x4400, 0x4500]);
    let outcome = decode_payload(&bytes, 2, 1);
    assert_eq!(outcome, Err(IngestError::ShapeMismatch { expected: 4, actual: 5 }));
}

#[test]
fn count_beyond_the_machine_word_is_a_shape_mismatch() {
    let side = 1usize << (usize::BITS / 2 - 1);
    let outcome = decode_payload(&[], side, usize::MAX);
    let expected = (side as u128) * (side as u128) * (usize::MAX as u128);
    assert_eq!(outcome, Err(IngestError::ShapeMismatch { expected, actual: 0 }));
}

#[test]
fn empty_grid_takes_the_empty_payload() {
    let table = decode_payload(&[], 0, 5).unwrap();
    assert_eq!(table.rows(), 0);
    assert_eq!(table.width(), 5);
    assert!(table.cells().is_empty());
    let table = decode_payload(&[], 3, 0).unwrap();
    assert_eq!(table.rows(), 9);
    assert_eq!(table.width(), 0);
    assert!(table.row(8).is_empty());
}

#[test]
fn transport_failure_is_passed_on() {
    let outcome = receive(Err("503 Service Unavailable".to_string()), 2, 1);
    assert_eq!(outcome, Err(IngestError::Transport("503 Service Unavailable".to_string())));
}

#[test]
fn delivered_payload_is_decoded() {
    let bytes = payload_of(&[0x3c00, 0x4000, 0x4200, 0x4400]);
    let table = receive(Ok(bytes.clone()), 2, 1).unwrap();
    assert_eq!(Some(table), Table::new(2, 1, vec![0x3c00, 0x4000, 0x4200, 0x4400]));
    assert_eq!(
        receive(Ok(bytes), 3, 1),
        Err(IngestError::ShapeMismatch { expected: 9, actual: 4 })
    );
    assert_eq!(
        receive(Ok(vec![1, 2, 3]), 3, 1),
        Err(IngestError::Malformed("odd byte length".to_string()))
    );
}

#[test]
fn table_is_made_only_of_a_fitting_count() {
    assert!(Table::new(2, 3, vec![0; 12]).is_some());
    assert!(Table::new(2, 3, vec![0; 11]).is_none());
    assert!(Table::new(2, 3, vec![0; 13]).is_none());
    assert!(Table::new(0, 3, Vec::new()).is_some());
    assert!(Table::new(usize::MAX, 0, Vec::new()).is_none());
    assert!(Table::new(usize::MAX, 1, vec![0; 4]).is_none());
}

#[test]
fn odd_payload_is_malformed_whatever_the_grid() {
    let malformed = Err(IngestError::Malformed("odd byte length".to_string()));
    assert_eq!(decode_payload(&[0x00, 0x3c, 0x00], usize::MAX, 1), malformed);
    assert_eq!(decode_payload(&[0x00, 0x3c, 0x00], usize::MAX, usize::MAX), malformed);
    assert_eq!(receive(Ok(vec![1, 2, 3]), usize::MAX, 0), malformed);
    assert_eq!(try_receive(Ok(vec![1, 2, 3]), usize::MAX, 7), Some(malformed));
}

#[test]
fn odd_payload_of_the_right_count_is_malformed() {
    let outcome = decode_payload(&[0x00, 0x3c, 0x00], 1, 1);
    assert_eq!(outcome, Err(IngestError::Malformed("odd byte length".to_string())));
    let outcome = decode_payload(&[0x00], 0, 5);
    assert_eq!(outcome, Err(IngestError::Malformed("odd byte length".to_string())));
}

#[test]
fn transport_failure_is_passed_on_whatever_the_grid() {
    let failure = Err(IngestError::Transport("connection reset".to_string()));
    assert_eq!(receive(Err("connection reset".to_string()), usize::MAX, 1), failure);
    assert_eq!(
        try_receive(Err("connection reset".to_string()), usize::MAX, usize::MAX),
        Some(failure)
    );
}

#[test]
fn even_payload_wants_a_countable_grid() {
    assert_eq!(try_receive(Ok(vec![0x00, 0x3c]), usize::MAX, 1), None);
    assert_eq!(try_receive(Ok(Vec::new()), usize::MAX, 0), None);
    let side = (1usize << (usize::BITS / 2)) - 1;
    assert_eq!(
        try_receive(Ok(vec![0x00, 0x3c]), side, 1),
        Some(Err(IngestError::ShapeMismatch {
            expected: (side as u128) * (side as u128),
            actual: 1
        }))
    );
}

#[test]
fn delivery_is_taken_as_it_is_received() {
    let bytes = payload_of(&[0x3c00, 0x4000, 0x4200, 0x4400]);
    assert_eq!(try_receive(Ok(bytes.clone()), 2, 1), Some(receive(Ok(bytes), 2, 1)));
    assert_eq!(
        try_receive(Ok(vec![0, 60]), 2, 1),
        Some(Err(IngestError::ShapeMismatch { expected: 4, actual: 1 }))
    );
}
