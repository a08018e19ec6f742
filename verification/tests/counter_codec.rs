use simple_amm::counter::{decode_counter, Decrement, Increment, Initialize};

#[test]
fn initialize_payload_is_its_tag() {
    let data = Initialize {}.instruction_data();
    assert_eq!(data, vec![175, 175, 109, 31, 13, 152, 155, 237]);
}

#[test]
fn increment_payload_is_its_tag() {
    let data = Increment {}.instruction_data();
    assert_eq!(data, vec![11, 18, 104, 9, 104, 174, 59, 33]);
}

#[test]
fn decrement_payload_is_its_tag() {
    let data = Decrement {}.instruction_data();
    assert_eq!(data, vec![106, 227, 168, 59, 248, 27, 150, 101]);
}

#[test]
fn decode_counter_reads_count_and_authority() {
    let mut data = vec![255, 176, 4, 245, 188, 253, 124, 25];
    data.extend_from_slice(&7u64.to_le_bytes());
    data.extend_from_slice(&[9u8; 32]);
    let c = decode_counter(&data).unwrap();
    assert_eq!(c.count, 7);
    assert_eq!(c.authority, vec![9u8; 32]);
}

#[test]
fn decode_counter_reads_little_endian() {
    let mut data = vec![0u8; 8];
    data.extend_from_slice(&[0x01, 0x02, 0, 0, 0, 0, 0, 0]);
    data.extend_from_slice(&[0u8; 32]);
    let c = decode_counter(&data).unwrap();
    assert_eq!(c.count, 0x0201);
}

#[test]
fn decode_counter_rejects_short_data() {
    assert!(decode_counter(&[0u8; 47]).is_none());
    assert!(decode_counter(&[]).is_none());
}
