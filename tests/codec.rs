use oml::convert::{
    bytes_to_event_id, decode_output, decode_tensor, encode_output, encode_tensor, encode_words,
    event_id_to_bytes, flatten_tensor, float_to_bytes, input_looks_degenerate, unflatten_tensor,
    zero_cell_count, CodecError, INPUT_CELLS,
};
use oml::data_info::{MODEL_OUTPUT_WIDTH, SERIES1_ITEM_SIZE, SERIES1_SIZE};

fn sample_tensor() -> Vec<Vec<u32>> {
    (0..SERIES1_SIZE)
        .map(|i| (0..SERIES1_ITEM_SIZE).map(|j| ((i * 7919 + j * 104729) as u32).wrapping_mul(2654435761)).collect())
        .collect()
}

#[test]
fn event_id_bytes_are_little_endian() {
    assert_eq!(event_id_to_bytes(1), [1, 0, 0, 0, 0, 0, 0, 0]);
    assert_eq!(event_id_to_bytes(0x0102_0304_0506_0708), [8, 7, 6, 5, 4, 3, 2, 1]);
    assert_eq!(event_id_to_bytes(-1), [0xff; 8]);
    assert_eq!(bytes_to_event_id([8, 7, 6, 5, 4, 3, 2, 1]), 0x0102_0304_0506_0708);
}

#[test]
fn event_id_round_trip_at_the_edges() {
    for id in [0i64, 1, -1, 42, i64::MAX, i64::MIN, 1_704_898_800_000] {
        assert_eq!(bytes_to_event_id(event_id_to_bytes(id)), id);
    }
}

#[test]
fn float_bytes_match_little_endian_layout() {
    let x = 1.5f32;
    assert_eq!(float_to_bytes(x.to_bits()), x.to_le_bytes());
    assert_eq!(float_to_bytes(0x3f80_0000), [0x00, 0x00, 0x80, 0x3f]);
}

#[test]
fn words_are_written_in_order() {
    let bytes = encode_words(&vec![0x0403_0201, 0x0807_0605]);
    assert_eq!(bytes, vec![1, 2, 3, 4, 5, 6, 7, 8]);
}

#[test]
fn tensor_round_trip() {
    let t = sample_tensor();
    let bytes = encode_tensor(&t);
    assert_eq!(bytes.len(), 4 * SERIES1_SIZE * SERIES1_ITEM_SIZE);
    assert_eq!(bytes.len(), 4 * INPUT_CELLS);
    assert_eq!(decode_tensor(&bytes), Ok(t));
}

#[test]
fn tensor_is_flattened_row_major() {
    let t = sample_tensor();
    let bytes = encode_tensor(&t);
    let second_row_first_cell = u32::from_le_bytes([bytes[24], bytes[25], bytes[26], bytes[27]]);
    assert_eq!(second_row_first_cell, t[1][0]);
    let flat = flatten_tensor(&t);
    assert_eq!(flat[SERIES1_ITEM_SIZE + 2], t[1][2]);
    assert_eq!(unflatten_tensor(&flat), t);
}

#[test]
fn tensor_decode_rejects_wrong_length() {
    let t = sample_tensor();
    let mut bytes = encode_tensor(&t);
    bytes.pop();
    assert_eq!(
        decode_tensor(&bytes),
        Err(CodecError::LengthMismatch { expected: 4 * INPUT_CELLS, actual: 4 * INPUT_CELLS - 1 })
    );
    assert_eq!(
        decode_tensor(&Vec::new()),
        Err(CodecError::LengthMismatch { expected: 4 * INPUT_CELLS, actual: 0 })
    );
}

#[test]
fn output_round_trip() {
    let v: Vec<u32> = [0.5f32, -1.0, 0.0, 3.25, 1e-3, 7.0, -0.0, 100.0].iter().map(|x| x.to_bits()).collect();
    let bytes = encode_output(&v);
    assert_eq!(bytes.len(), 4 * MODEL_OUTPUT_WIDTH);
    assert_eq!(&bytes[0..4], &0.5f32.to_le_bytes());
    assert_eq!(decode_output(&bytes), Ok(v));
}

#[test]
fn output_decode_rejects_wrong_length() {
    assert_eq!(
        decode_output(&vec![0u8; 36]),
        Err(CodecError::LengthMismatch { expected: 32, actual: 36 })
    );
}

#[test]
fn zero_values_are_counted() {
    let cells = vec![0.0f32.to_bits(), (-0.0f32).to_bits(), 1.0f32.to_bits(), 0.5f32.to_bits(), 0];
    assert_eq!(zero_cell_count(&cells), 3);
    assert!(input_looks_degenerate(&cells, 1));
    assert!(!input_looks_degenerate(&cells, 2));
}
