//! The frame codec on concrete frames.

use hearth::tuya_protocol::{
    build_dp_query_json, build_frame, decrypt_payload, encrypt_payload, parse_frame,
    CMD_CONTROL, CMD_DP_QUERY, CMD_STATUS, FOOTER_SIZE, HEADER_SIZE, PREFIX, SUFFIX,
    VERSION_HEADER,
};

fn now_secs() -> u64 {
    std::time::SystemTime::now()
        .duration_since(std::time::UNIX_EPOCH)
        .unwrap_or_default()
        .as_secs()
}

#[test]
fn encrypt_decrypt_roundtrip() {
    let key: [u8; 16] = *b"0123456789abcdef";
    let plaintext = b"hello tuya world";

    let encrypted = encrypt_payload(plaintext, &key);
    let decrypted = decrypt_payload(&encrypted, &key).unwrap();
    assert_eq!(&decrypted, plaintext);
}

#[test]
fn build_frame_has_correct_structure() {
    let key: [u8; 16] = *b"0123456789abcdef";
    let json = b"{\"dps\":{\"1\":true}}";

    let frame = build_frame(1, CMD_CONTROL, json, &key);
    let data = &frame.bytes;

    // Check prefix
    let prefix = u32::from_be_bytes([data[0], data[1], data[2], data[3]]);
    assert_eq!(prefix, PREFIX);

    // Check seqno
    let seqno = u32::from_be_bytes([data[4], data[5], data[6], data[7]]);
    assert_eq!(seqno, 1);

    // Check command
    let cmd = u32::from_be_bytes([data[8], data[9], data[10], data[11]]);
    assert_eq!(cmd, CMD_CONTROL);

    // Check suffix at end
    let suffix = u32::from_be_bytes([
        data[data.len() - 4],
        data[data.len() - 3],
        data[data.len() - 2],
        data[data.len() - 1],
    ]);
    assert_eq!(suffix, SUFFIX);

    // CONTROL frame should have "3.3" version header after the 16-byte header
    assert_eq!(&data[HEADER_SIZE..HEADER_SIZE + 3], b"3.3");
}

#[test]
fn dp_query_frame_has_no_version_header() {
    let key: [u8; 16] = *b"0123456789abcdef";
    let json = build_dp_query_json("test_device", now_secs());

    let frame = build_frame(2, CMD_DP_QUERY, &json, &key);
    let data = &frame.bytes;

    // DP_QUERY should NOT have "3.3" version header
    assert_ne!(&data[HEADER_SIZE..HEADER_SIZE + 3], b"3.3");
}

#[test]
fn parse_device_response() {
    // Simulate a device response: [header][retcode][version_header + ciphertext][crc][suffix]
    let key: [u8; 16] = *b"0123456789abcdef";
    let json_payload = b"{\"dps\":{\"1\":true,\"6\":55}}";
    let encrypted = encrypt_payload(json_payload, &key);

    // Build a fake device response with retcode
    let mut payload_section = Vec::new();
    payload_section.extend_from_slice(&0u32.to_be_bytes()); // retcode = 0 (success)
    payload_section.extend_from_slice(&VERSION_HEADER);
    payload_section.extend_from_slice(&encrypted);

    let length = (payload_section.len() + FOOTER_SIZE) as u32;

    let mut frame = Vec::new();
    frame.extend_from_slice(&PREFIX.to_be_bytes());
    frame.extend_from_slice(&42u32.to_be_bytes()); // seqno
    frame.extend_from_slice(&CMD_STATUS.to_be_bytes()); // cmd
    frame.extend_from_slice(&length.to_be_bytes());
    frame.extend_from_slice(&payload_section);

    let crc = crc32fast::hash(&frame);
    frame.extend_from_slice(&crc.to_be_bytes());
    frame.extend_from_slice(&SUFFIX.to_be_bytes());

    // Parse it
    let msg = parse_frame(&frame, &key).unwrap();
    assert_eq!(msg.seqno, 42);
    assert_eq!(msg.cmd, CMD_STATUS);
    assert_eq!(msg.retcode, 0);
    assert_eq!(&msg.payload, json_payload);
}
