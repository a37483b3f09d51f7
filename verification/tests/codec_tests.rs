use std::collections::{BTreeMap, HashMap};

use live_update::events::HmrMessage;
use live_update::protocol::{
    decode_request, encode_cmd_result, encode_map3, encode_push_message, encode_relay,
};

#[test]
fn push_frame_bytes() {
    let msg = HmrMessage { msg_type: "hmr::css_update".to_string(), body: "/src/app.css".to_string() };
    let frame = encode_push_message(&msg).unwrap();
    let mut expected: Vec<u8> = Vec::new();
    expected.push(0x82);
    expected.push(0xa4);
    expected.extend_from_slice(b"type");
    expected.push(0xaf);
    expected.extend_from_slice(b"hmr::css_update");
    expected.push(0xa4);
    expected.extend_from_slice(b"body");
    expected.push(0xac);
    expected.extend_from_slice(b"/src/app.css");
    assert_eq!(frame, expected);
}

#[test]
fn push_frame_reads_back_with_the_reference_codec() {
    let msg = HmrMessage { msg_type: "hmr::reload".to_string(), body: "/index.html".to_string() };
    let frame = encode_push_message(&msg).unwrap();
    let map: HashMap<String, String> = rmp_serde::from_slice(&frame).unwrap();
    assert_eq!(map.len(), 2);
    assert_eq!(map["type"], "hmr::reload");
    assert_eq!(map["body"], "/index.html");
}

#[test]
fn cmd_result_reads_back_with_the_reference_codec() {
    let frame = encode_cmd_result("hi\n", "x1").unwrap();
    let map: HashMap<String, String> = rmp_serde::from_slice(&frame).unwrap();
    assert_eq!(map.len(), 3);
    assert_eq!(map["type"], "cmd_result");
    assert_eq!(map["body"], "hi\n");
    assert_eq!(map["msg_id"], "x1");
}

#[test]
fn request_round_trip_through_own_codec() {
    let frame = encode_map3("cmd", "echo hi", "x1").unwrap();
    let req = decode_request(&frame).unwrap();
    assert_eq!(req.kind, "cmd");
    assert_eq!(req.payload, "echo hi");
    assert_eq!(req.request_id, "x1");
}

#[test]
fn decodes_frames_from_the_reference_codec_in_any_key_order() {
    // A BTreeMap serializes its keys sorted: body, msg_id, type.
    let mut map: BTreeMap<String, String> = BTreeMap::new();
    map.insert("type".to_string(), "broadcast".to_string());
    map.insert("body".to_string(), "hello".to_string());
    map.insert("msg_id".to_string(), "r1".to_string());
    let frame = rmp_serde::to_vec(&map).unwrap();
    let req = decode_request(&frame).unwrap();
    assert_eq!(req.kind, "broadcast");
    assert_eq!(req.payload, "hello");
    assert_eq!(req.request_id, "r1");
}

#[test]
fn decodes_longer_string_forms() {
    let long_payload = "x".repeat(300);
    let frame = encode_map3("cmd", &long_payload, "id-1").unwrap();
    // 300 bytes needs the two-byte-length string form.
    assert!(frame.contains(&0xda));
    let req = decode_request(&frame).unwrap();
    assert_eq!(req.payload, long_payload);
}

#[test]
fn decodes_multibyte_text() {
    let frame = encode_map3("cmd", "héllo ✓", "x").unwrap();
    let req = decode_request(&frame).unwrap();
    assert_eq!(req.payload, "héllo ✓");
}

#[test]
fn rejects_malformed_frames() {
    assert!(decode_request(&[]).is_none());
    // Not a map.
    assert!(decode_request(&[0xa3, b'c', b'm', b'd']).is_none());
    // A two-entry map.
    let msg = HmrMessage { msg_type: "t".to_string(), body: "b".to_string() };
    let push = encode_push_message(&msg).unwrap();
    assert!(decode_request(&push).is_none());
    // Truncated.
    let frame = encode_map3("cmd", "echo hi", "x1").unwrap();
    assert!(decode_request(&frame[..frame.len() - 1]).is_none());
    // Wrong keys.
    let mut map: BTreeMap<String, String> = BTreeMap::new();
    map.insert("type".to_string(), "cmd".to_string());
    map.insert("body".to_string(), "x".to_string());
    map.insert("reply_to".to_string(), "x1".to_string());
    let frame = rmp_serde::to_vec(&map).unwrap();
    assert!(decode_request(&frame).is_none());
    // A duplicated key.
    let mut dup: Vec<u8> = Vec::new();
    dup.push(0x83);
    for _ in 0..3 {
        dup.push(0xa4);
        dup.extend_from_slice(b"type");
        dup.push(0xa1);
        dup.push(b'x');
    }
    assert!(decode_request(&dup).is_none());
    // A non-UTF-8 value.
    let mut bad: Vec<u8> = Vec::new();
    bad.push(0x83);
    bad.push(0xa4);
    bad.extend_from_slice(b"type");
    bad.push(0xa1);
    bad.push(0xff);
    bad.push(0xa4);
    bad.extend_from_slice(b"body");
    bad.push(0xa0);
    bad.push(0xa6);
    bad.extend_from_slice(b"msg_id");
    bad.push(0xa0);
    assert!(decode_request(&bad).is_none());
}

#[test]
fn relay_frame_layout() {
    let frame = encode_relay("hello", 7, "r1").unwrap();
    let mut expected: Vec<u8> = Vec::new();
    expected.push(0x84);
    expected.push(0xa4);
    expected.extend_from_slice(b"type");
    expected.push(0xa9);
    expected.extend_from_slice(b"broadcast");
    expected.push(0xa4);
    expected.extend_from_slice(b"body");
    expected.push(0xa5);
    expected.extend_from_slice(b"hello");
    expected.push(0xa2);
    expected.extend_from_slice(b"id");
    expected.push(7);
    expected.push(0xa6);
    expected.extend_from_slice(b"msg_id");
    expected.push(0xa2);
    expected.extend_from_slice(b"r1");
    assert_eq!(frame, expected);
}

#[test]
fn relay_frame_uint_forms() {
    // The sender id is written in its shortest unsigned form.
    let f = encode_relay("b", 200, "m").unwrap();
    assert!(f.windows(2).any(|w| w == [0xcc, 200]));
    let f = encode_relay("b", 1000, "m").unwrap();
    assert!(f.windows(3).any(|w| w == [0xcd, 0x03, 0xe8]));
    let f = encode_relay("b", 100_000, "m").unwrap();
    assert!(f.windows(5).any(|w| w == [0xce, 0x00, 0x01, 0x86, 0xa0]));
    let f = encode_relay("b", 5_000_000_000, "m").unwrap();
    assert!(f.windows(9).any(|w| w == [0xcf, 0, 0, 0, 1, 0x2a, 0x05, 0xf2, 0x00]));
}
