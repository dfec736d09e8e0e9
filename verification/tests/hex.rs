use unstaking::hex::broadcast_payload;

#[test]
fn payload_is_lower_case_hex() {
    assert_eq!(broadcast_payload(&vec![0x00, 0x0f, 0xa5, 0xff]), Some("000fa5ff".to_string()));
    assert_eq!(broadcast_payload(&vec![0xde, 0xad, 0xbe, 0xef]), Some("deadbeef".to_string()));
}

#[test]
fn payload_of_nothing_is_empty() {
    assert_eq!(broadcast_payload(&Vec::new()), Some(String::new()));
}

#[test]
fn payload_has_two_digits_for_each_byte() {
    let bytes: Vec<u8> = (0..=255u8).collect();
    let text = broadcast_payload(&bytes).unwrap();
    assert_eq!(text.len(), 512);
    let digits = "0123456789abcdef".as_bytes();
    for (i, byte) in bytes.iter().enumerate() {
        assert_eq!(text.as_bytes()[2 * i], digits[(byte / 16) as usize]);
        assert_eq!(text.as_bytes()[2 * i + 1], digits[(byte % 16) as usize]);
    }
}
