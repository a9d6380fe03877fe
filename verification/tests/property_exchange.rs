use midi_controller::property_exchange::{
    build_get_inquiry, build_get_reply, build_set_inquiry, build_set_reply, decode_mcoded7,
    encode_mcoded7, extract_body, extract_get_body, extract_get_resource, extract_set_property,
    is_ci_message, is_get_property, is_get_reply, is_set_property, request_id, source_muid,
    CI_VERSION, PE_GET_INQUIRY, PE_SET_INQUIRY, PE_SET_REPLY, SUB_ID1_MIDI_CI, UNIVERSAL_SYSEX,
};

#[test]
fn roundtrip_set_property() {
    let payload = b"hello";
    let msg = build_set_inquiry(
        [0x10, 0x20, 0x30, 0x40],
        [0x01, 0x02, 0x03, 0x04],
        0x07,
        3,
        payload,
    );

    assert!(is_ci_message(&msg));
    assert!(is_set_property(&msg));
    assert_eq!(request_id(&msg), 0x07);
    assert_eq!(source_muid(&msg), [0x10, 0x20, 0x30, 0x40]);

    let data = extract_set_property(&msg).unwrap();
    assert_eq!(data.resource, 3);
    let mut decoded = [0u8; 32];
    let dec_len = decode_mcoded7(data.body, &mut decoded);
    assert_eq!(&decoded[..dec_len], b"hello");
}

#[test]
fn not_ci_for_opendeck() {
    let buf = [0xF0, 0x00, 0x53, 0x43, 0x00, 0x00, 0x01, 0xF7];
    assert!(!is_ci_message(&buf));
}

#[test]
fn reply_structure() {
    let reply = build_set_reply([0x01, 0x02, 0x03, 0x04], [0x10, 0x20, 0x30, 0x40], 0x07);
    assert_eq!(reply[0], 0xF0);
    assert_eq!(reply[4], PE_SET_REPLY);
    assert_eq!(reply[14], 0x07);
    assert_eq!(*reply.last().unwrap(), 0xF7);
}

#[test]
fn extract_body_with_header() {
    let mut msg: heapless::Vec<u8, 128> = heapless::Vec::new();
    let _ = msg.push(0xF0);
    let _ = msg.push(UNIVERSAL_SYSEX);
    let _ = msg.push(0x7F);
    let _ = msg.push(SUB_ID1_MIDI_CI);
    let _ = msg.push(PE_SET_INQUIRY);
    let _ = msg.push(CI_VERSION);
    for &b in &[0x10, 0x20, 0x30, 0x40, 0x01, 0x02, 0x03, 0x04] {
        let _ = msg.push(b);
    }
    let _ = msg.push(0x01); // request_id
    // header_len = 3
    let _ = msg.push(0x03);
    let _ = msg.push(0x00);
    for &b in b"abc" {
        let _ = msg.push(b);
    }
    // chunks
    let _ = msg.push(0x01);
    let _ = msg.push(0x00);
    let _ = msg.push(0x01);
    let _ = msg.push(0x00);
    // body_len = 4
    let _ = msg.push(0x04);
    let _ = msg.push(0x00);
    for &b in b"data" {
        let _ = msg.push(b);
    }
    let _ = msg.push(0xF7);

    assert_eq!(extract_body(&msg).unwrap(), b"data");
}

#[test]
fn get_property_roundtrip() {
    let inquiry = build_get_inquiry([0x10, 0x20, 0x30, 0x40], [0x01, 0x02, 0x03, 0x04], 0x05, 7);
    assert!(is_get_property(&inquiry));
    assert!(!is_set_property(&inquiry));
    assert_eq!(extract_get_resource(&inquiry), Some(7));
    assert_eq!(request_id(&inquiry), 0x05);
}

#[test]
fn get_reply_body_extraction() {
    let body = b"preset data here";
    let reply = build_get_reply(
        [0x01, 0x02, 0x03, 0x04],
        [0x10, 0x20, 0x30, 0x40],
        0x03,
        2,
        body,
    );
    assert!(is_get_reply(&reply));
    let raw = extract_get_body(&reply).unwrap();
    let mut decoded = [0u8; 32];
    let dec_len = decode_mcoded7(raw, &mut decoded);
    assert_eq!(&decoded[..dec_len], body);
}

#[test]
fn mcoded7_roundtrip_short() {
    let data = [0x80, 0xFF, 0x00, 0x7F];
    let mut encoded = [0u8; 256];
    let enc_len = encode_mcoded7(&data, &mut encoded);
    let mut decoded = [0u8; 256];
    let dec_len = decode_mcoded7(&encoded[..enc_len], &mut decoded);
    assert_eq!(&decoded[..dec_len], &data);
}

#[test]
fn mcoded7_roundtrip_exact_7() {
    let data = [0x80, 0x81, 0x82, 0x83, 0x84, 0x85, 0x86];
    let mut encoded = [0u8; 256];
    let enc_len = encode_mcoded7(&data, &mut encoded);
    assert_eq!(enc_len, 8); // 7 input → 8 output
    let mut decoded = [0u8; 256];
    let dec_len = decode_mcoded7(&encoded[..enc_len], &mut decoded);
    assert_eq!(&decoded[..dec_len], &data);
}

#[test]
fn mcoded7_roundtrip_14_bytes() {
    let data = [0xFF; 14];
    let mut encoded = [0u8; 256];
    let enc_len = encode_mcoded7(&data, &mut encoded);
    assert_eq!(enc_len, 16); // 14 → 2 groups of 8
    let mut decoded = [0u8; 256];
    let dec_len = decode_mcoded7(&encoded[..enc_len], &mut decoded);
    assert_eq!(&decoded[..dec_len], &data);
}

#[test]
fn mcoded7_all_7bit_safe_is_passthrough_with_prefix() {
    let data = [0x01, 0x7F, 0x00, 0x55];
    let mut encoded = [0u8; 256];
    let enc_len = encode_mcoded7(&data, &mut encoded);
    // High bits byte should be 0 (no high bits set)
    assert_eq!(encoded[0], 0x00);
    assert_eq!(&encoded[1..5], &data);
    assert_eq!(enc_len, 5);
}

#[test]
fn mcoded7_custom_rgb_color() {
    // Simulate a postcard-serialized Custom(255, 128, 0)
    let data = [0xFF, 0x80, 0x00];
    let mut encoded = [0u8; 256];
    let enc_len = encode_mcoded7(&data, &mut encoded);
    let mut decoded = [0u8; 256];
    let dec_len = decode_mcoded7(&encoded[..enc_len], &mut decoded);
    assert_eq!(&decoded[..dec_len], &data);
}

#[test]
fn mcoded7_high_bits_byte_and_seven_bit_output() {
    let data = [0x80, 0x01, 0xFF, 0x02, 0x03, 0x04, 0x85, 0x90];
    let mut encoded = [0xAAu8; 12];
    let enc_len = encode_mcoded7(&data, &mut encoded);
    assert_eq!(enc_len, 10);
    // bits 0, 2 and 6 of the first group; bit 0 of the second
    assert_eq!(encoded[0], 0b0100_0101);
    assert_eq!(&encoded[1..8], &[0x00, 0x01, 0x7F, 0x02, 0x03, 0x04, 0x05]);
    assert_eq!(encoded[8], 0b0000_0001);
    assert_eq!(encoded[9], 0x10);
    assert!(encoded[..enc_len].iter().all(|&b| b < 0x80));
    // bytes past the encoding are left alone
    assert_eq!(&encoded[10..], &[0xAA, 0xAA]);
}

#[test]
fn mcoded7_decode_partial_last_group() {
    // a high-bits byte with no data bytes decodes to nothing
    let mut out = [0u8; 8];
    assert_eq!(decode_mcoded7(&[0x7F], &mut out), 0);
    assert_eq!(decode_mcoded7(&[], &mut out), 0);
    // 9 bytes: one full group and a group of a single high-bits byte... plus one byte
    let encoded = [0x01, 0x00, 0x01, 0x02, 0x03, 0x04, 0x05, 0x06, 0x01, 0x07];
    let mut out = [0u8; 16];
    let n = decode_mcoded7(&encoded, &mut out);
    assert_eq!(n, 8);
    assert_eq!(&out[..n], &[0x80, 0x01, 0x02, 0x03, 0x04, 0x05, 0x06, 0x87]);
}

#[test]
fn set_inquiry_layout() {
    let msg = build_set_inquiry([1, 2, 3, 4], [5, 6, 7, 8], 9, 4, &[0x80, 0x01]);
    assert_eq!(
        msg.as_slice(),
        &[
            0xF0, 0x7E, 0x7F, 0x0D, 0x36, 0x02, 1, 2, 3, 4, 5, 6, 7, 8, 9, 0x01, 0x00, 4, 0x01,
            0x00, 0x01, 0x00, 0x03, 0x00, 0x01, 0x00, 0x01, 0xF7
        ]
    );
    let data = extract_set_property(&msg).unwrap();
    assert_eq!(data.resource, 4);
    assert_eq!(data.body, &[0x01, 0x00, 0x01]);
}

#[test]
fn long_body_length_field_uses_two_bytes() {
    let body = [0x41u8; 200];
    let msg = build_get_reply([1, 2, 3, 4], [5, 6, 7, 8], 1, 0, &body);
    // 200 bytes encode to 200 + 29 = 229 bytes: 0x65, 0x01
    assert_eq!(msg[22], 0x65);
    assert_eq!(msg[23], 0x01);
    assert_eq!(msg.len(), 25 + 229);
    let raw = extract_get_body(&msg).unwrap();
    assert_eq!(raw.len(), 229);
    let mut decoded = [0u8; 256];
    let n = decode_mcoded7(raw, &mut decoded);
    assert_eq!(&decoded[..n], &body[..]);
}

#[test]
fn truncated_messages_are_rejected() {
    let msg = build_set_inquiry([1, 2, 3, 4], [5, 6, 7, 8], 9, 4, b"abc");
    for cut in 0..msg.len() - 1 {
        assert!(extract_set_property(&msg[..cut]).is_none(), "cut at {}", cut);
    }
    assert!(extract_set_property(&msg[..msg.len() - 1]).is_some());
    // wrong kind
    assert!(extract_get_body(&msg).is_none());
    assert!(extract_get_resource(&msg).is_none());
}

#[test]
fn empty_header_gives_resource_zero() {
    let reply = build_set_reply([1, 2, 3, 4], [5, 6, 7, 8], 3);
    assert!(is_ci_message(&reply));
    assert!(!is_set_property(&reply));
    assert!(extract_set_property(&reply).is_none());
    let mut inquiry = build_get_inquiry([1, 2, 3, 4], [5, 6, 7, 8], 1, 9);
    inquiry[15] = 0; // header length 0
    assert_eq!(extract_get_resource(&inquiry), Some(0));
}

#[test]
fn mcoded7_lengths_match_for_all_short_inputs() {
    for n in 0..40usize {
        let data: Vec<u8> = (0..n).map(|i| (i * 37 + 128) as u8).collect();
        let mut encoded = [0u8; 64];
        let enc_len = encode_mcoded7(&data, &mut encoded);
        assert_eq!(enc_len, n + (n + 6) / 7);
        let mut decoded = [0u8; 64];
        let dec_len = decode_mcoded7(&encoded[..enc_len], &mut decoded);
        assert_eq!(dec_len, n);
        assert_eq!(&decoded[..dec_len], &data[..]);
    }
}
