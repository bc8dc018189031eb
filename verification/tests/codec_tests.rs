use kafka_ingest::codec::{
    VARINT_MAX_BYTES,
    decode_envelope, decode_publish_request, decode_varint_at, encode_envelope,
    encode_publish_request, encode_varint, published_message_type_bytes, wrap_publish_payload,
    Envelope, PublishRequest,
};

fn varint_round_trip(n: u64) {
    let mut buf: Vec<u8> = Vec::new();
    encode_varint(&mut buf, n);
    assert!(buf.len() >= 1 && buf.len() <= 10);
    let decoded = decode_varint_at(&buf, 0, VARINT_MAX_BYTES).expect("valid varint");
    assert_eq!(decoded.0, n);
    assert_eq!(decoded.1, buf.len());
}

#[test]
fn varint_round_trips() {
    varint_round_trip(0);
    varint_round_trip(1);
    varint_round_trip(127);
    varint_round_trip(128);
    varint_round_trip(300);
    varint_round_trip(16_383);
    varint_round_trip(16_384);
    varint_round_trip(u64::MAX);
}

#[test]
fn varint_rejects_long_runs() {
    // Eleven continuation bytes: longer than any 64-bit value needs.
    let buf = vec![0x80u8; 11];
    assert!(decode_varint_at(&buf, 0, VARINT_MAX_BYTES).is_none());
}

#[test]
fn varint_rejects_truncation() {
    let buf = vec![0x80u8, 0x80u8];
    assert!(decode_varint_at(&buf, 0, VARINT_MAX_BYTES).is_none());
}

#[test]
fn varint_accepts_non_minimal_zero() {
    let buf = vec![0x80u8, 0x00u8];
    let decoded = decode_varint_at(&buf, 0, VARINT_MAX_BYTES).expect("accepted");
    assert_eq!(decoded.0, 0);
    assert_eq!(decoded.1, 2);
}

#[test]
fn envelope_round_trips() {
    let env = Envelope {
        payload: b"inner bytes".to_vec(),
        message_type: b"hello.PublishRequest".to_vec(),
        timestamp: b"2024-01-01T00:00:00Z".to_vec(),
        version: b"1.0".to_vec(),
        headers: vec![
            (b"trace".to_vec(), b"abc123".to_vec()),
            (b"empty".to_vec(), b"".to_vec()),
        ],
    };
    let bytes = encode_envelope(&env);
    let back = decode_envelope(&bytes).expect("round trip");
    assert_eq!(back.payload, env.payload);
    assert_eq!(back.message_type, env.message_type);
    assert_eq!(back.timestamp, env.timestamp);
    assert_eq!(back.version, env.version);
    assert_eq!(back.headers, env.headers);
}

#[test]
fn empty_envelope_round_trips() {
    let env = Envelope {
        payload: Vec::new(),
        message_type: Vec::new(),
        timestamp: Vec::new(),
        version: Vec::new(),
        headers: Vec::new(),
    };
    let bytes = encode_envelope(&env);
    let back = decode_envelope(&bytes).expect("round trip");
    assert!(back.payload.is_empty());
    assert!(back.message_type.is_empty());
    assert!(back.headers.is_empty());
}

#[test]
fn publish_request_round_trips() {
    let pr = PublishRequest { data: b"x".to_vec(), metadata: b"".to_vec() };
    let bytes = encode_publish_request(&pr);
    let back = decode_publish_request(&bytes).expect("round trip");
    assert_eq!(back.data, b"x".to_vec());
    assert_eq!(back.metadata, b"".to_vec());
}

#[test]
fn decode_rejects_truncated_envelope() {
    let env = Envelope {
        payload: b"abcdef".to_vec(),
        message_type: b"hello.PublishRequest".to_vec(),
        timestamp: b"t".to_vec(),
        version: b"1.0".to_vec(),
        headers: Vec::new(),
    };
    let mut bytes = encode_envelope(&env);
    bytes.pop();
    assert!(decode_envelope(&bytes).is_none());
}

#[test]
fn decode_rejects_garbage() {
    // A key announcing the deprecated group wire type.
    let bytes = vec![0x0bu8];
    assert!(decode_envelope(&bytes).is_none());
    // Field number zero.
    let bytes = vec![0x02u8, 0x00u8];
    assert!(decode_envelope(&bytes).is_none());
}

#[test]
fn decode_skips_unknown_fields() {
    // field 6, wire type 0, value 5 -- then field 1 (payload) holding "ab".
    let bytes = vec![0x30u8, 0x05u8, 0x0au8, 0x02u8, b'a', b'b'];
    let env = decode_envelope(&bytes).expect("unknown fields are skipped");
    assert_eq!(env.payload, b"ab".to_vec());
    assert!(env.message_type.is_empty());
}

#[test]
fn decode_rejects_wrong_wire_type_on_known_field() {
    // field 1 (payload) with wire type 0 instead of length-delimited.
    let bytes = vec![0x08u8, 0x01u8];
    assert!(decode_envelope(&bytes).is_none());
}

#[test]
fn later_field_occurrence_wins() {
    // field 2 (message_type) twice: "aa" then "bb".
    let bytes = vec![0x12u8, 0x02u8, b'a', b'a', 0x12u8, 0x02u8, b'b', b'b'];
    let env = decode_envelope(&bytes).expect("valid");
    assert_eq!(env.message_type, b"bb".to_vec());
}

#[test]
fn wrap_publish_payload_sets_recognised_tag() {
    let inner = encode_publish_request(&PublishRequest {
        data: b"d".to_vec(),
        metadata: b"m".to_vec(),
    });
    let env = wrap_publish_payload(inner.clone(), b"2024-06-01T00:00:00Z".to_vec());
    assert_eq!(env.message_type, published_message_type_bytes());
    assert_eq!(env.message_type, b"hello.PublishRequest".to_vec());
    assert_eq!(env.payload, inner);
    assert_eq!(env.version, b"1.0".to_vec());
    assert!(env.headers.is_empty());
}
