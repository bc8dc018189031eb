use kafka_ingest::codec::{encode_envelope, encode_publish_request, wrap_publish_payload, Envelope, PublishRequest};
use kafka_ingest::events::LogEvent;
use kafka_ingest::pipeline::{process_default_record, process_publish_record, RawRecord};
use kafka_ingest::retry::{RowData, StoreLog};

fn default_record(payload: &[u8]) -> RawRecord {
    RawRecord {
        topic: "hello-topic".to_string(),
        partition: 0,
        offset: 42,
        payload: Some(payload.to_vec()),
    }
}

fn publish_record(payload: Vec<u8>) -> RawRecord {
    RawRecord {
        topic: "publish-topic".to_string(),
        partition: 3,
        offset: 7,
        payload: Some(payload),
    }
}

fn valid_publish_payload(data: &[u8], metadata: &[u8]) -> Vec<u8> {
    let inner = encode_publish_request(&PublishRequest {
        data: data.to_vec(),
        metadata: metadata.to_vec(),
    });
    let env = wrap_publish_payload(inner, b"2024-01-01T00:00:00Z".to_vec());
    encode_envelope(&env)
}

#[test]
fn greeting_payload_is_classified_structurally() {
    // A greeting record: the classifier logs the structured fields, and the
    // classification itself makes no store decision.
    let rec = default_record(br#"{"name":"Ada","timestamp":"2024-01-01T00:00:00Z"}"#);
    let mut store = StoreLog::new();
    let outcomes = vec![true, true, true];
    let events = process_default_record(&rec, &outcomes, &mut store);
    assert_eq!(events.len(), 2);
    assert!(matches!(events[0], LogEvent::StoreCommitted));
    match &events[1] {
        LogEvent::Greeting { name, timestamp } => {
            assert_eq!(name, "Ada");
            assert_eq!(timestamp, "2024-01-01T00:00:00Z");
        },
        _ => panic!("expected a structured greeting"),
    }
}

#[test]
fn plain_text_payload_never_errors() {
    let rec = default_record(b"not json at all");
    let mut store = StoreLog::new();
    let outcomes = vec![true, true, true];
    let events = process_default_record(&rec, &outcomes, &mut store);
    assert_eq!(events.len(), 2);
    match &events[1] {
        LogEvent::RawText { payload } => assert_eq!(payload, "not json at all"),
        _ => panic!("expected plain-text handling"),
    }
}

#[test]
fn malformed_json_degrades_to_raw_text() {
    let rec = default_record(br#"{"name": 5}"#);
    let mut store = StoreLog::new();
    let outcomes = vec![true, true, true];
    let events = process_default_record(&rec, &outcomes, &mut store);
    assert!(matches!(events[1], LogEvent::RawText { .. }));
}

#[test]
fn non_utf8_payload_degrades_to_replacement_text() {
    let rec = default_record(&[0xff, 0xfe]);
    let mut store = StoreLog::new();
    let outcomes = vec![true, true, true];
    let events = process_default_record(&rec, &outcomes, &mut store);
    match &events[1] {
        LogEvent::RawText { payload } => assert_eq!(payload, "\u{FFFD}\u{FFFD}"),
        _ => panic!("expected plain-text handling"),
    }
}

#[test]
fn default_record_is_persisted_with_provenance() {
    let rec = default_record(b"hi there");
    let mut store = StoreLog::new();
    let outcomes = vec![true, true, true];
    process_default_record(&rec, &outcomes, &mut store);
    assert_eq!(store.rows.len(), 1);
    let row = &store.rows[0];
    assert_eq!(row.topic, "hello-topic");
    assert_eq!(row.partition, 0);
    assert_eq!(row.offset, 42);
    match &row.data {
        RowData::Message { payload } => assert_eq!(payload, "hi there"),
        _ => panic!("expected a raw-text row"),
    }
}

#[test]
fn valid_publish_record_persists_one_row() {
    // Full decode chain, then one committed row carrying the record's
    // provenance, with empty metadata stored as absent.
    let rec = publish_record(valid_publish_payload(b"x", b""));
    let mut store = StoreLog::new();
    let outcomes = vec![true, true, true];
    let events = process_publish_record(&rec, &outcomes, &mut store);
    assert_eq!(events.len(), 1);
    assert!(matches!(events[0], LogEvent::StoreCommitted));
    assert_eq!(store.rows.len(), 1);
    let row = &store.rows[0];
    assert_eq!(row.topic, "publish-topic");
    assert_eq!(row.partition, 3);
    assert_eq!(row.offset, 7);
    match &row.data {
        RowData::Published { data, metadata } => {
            assert_eq!(data, &b"x".to_vec());
            assert!(metadata.is_none());
        },
        _ => panic!("expected a published-data row"),
    }
}

#[test]
fn nonempty_metadata_is_stored() {
    let rec = publish_record(valid_publish_payload(b"payload", b"extra"));
    let mut store = StoreLog::new();
    let outcomes = vec![true, true, true];
    process_publish_record(&rec, &outcomes, &mut store);
    match &store.rows[0].data {
        RowData::Published { metadata, .. } => {
            assert_eq!(metadata.as_ref().expect("metadata kept"), &b"extra".to_vec());
        },
        _ => panic!("expected a published-data row"),
    }
}

#[test]
fn unknown_message_type_is_dropped_without_store_calls() {
    // The store would answer every attempt with success, yet no row may
    // appear and no attempt may even be logged.
    let inner = encode_publish_request(&PublishRequest {
        data: b"x".to_vec(),
        metadata: b"".to_vec(),
    });
    let env = Envelope {
        payload: inner,
        message_type: b"other.Type".to_vec(),
        timestamp: b"t".to_vec(),
        version: b"1.0".to_vec(),
        headers: Vec::new(),
    };
    let rec = publish_record(encode_envelope(&env));
    let mut store = StoreLog::new();
    let outcomes = vec![true, true, true];
    let events = process_publish_record(&rec, &outcomes, &mut store);
    assert_eq!(store.rows.len(), 0);
    assert_eq!(events.len(), 1);
    match &events[0] {
        LogEvent::UnknownMessageType { message_type } => {
            assert_eq!(message_type, &b"other.Type".to_vec());
        },
        _ => panic!("expected an unknown-type warning"),
    }
}

#[test]
fn malformed_envelope_is_dropped_without_store_calls() {
    let rec = publish_record(vec![0x0b, 0xff, 0x00]);
    let mut store = StoreLog::new();
    let outcomes = vec![true, true, true];
    let events = process_publish_record(&rec, &outcomes, &mut store);
    assert_eq!(store.rows.len(), 0);
    assert_eq!(events.len(), 1);
    assert!(matches!(events[0], LogEvent::EnvelopeMalformed));
}

#[test]
fn malformed_inner_payload_is_dropped_without_store_calls() {
    // A well-typed envelope whose inner bytes announce a chunk that never
    // arrives.
    let env = wrap_publish_payload(vec![0x0a, 0x05], b"t".to_vec());
    let rec = publish_record(encode_envelope(&env));
    let mut store = StoreLog::new();
    let outcomes = vec![true, true, true];
    let events = process_publish_record(&rec, &outcomes, &mut store);
    assert_eq!(store.rows.len(), 0);
    assert_eq!(events.len(), 1);
    assert!(matches!(events[0], LogEvent::InnerPayloadMalformed));
}

#[test]
fn empty_publish_payload_is_reported() {
    let rec = RawRecord {
        topic: "publish-topic".to_string(),
        partition: 0,
        offset: 0,
        payload: None,
    };
    let mut store = StoreLog::new();
    let outcomes = vec![true, true, true];
    let events = process_publish_record(&rec, &outcomes, &mut store);
    assert_eq!(store.rows.len(), 0);
    assert!(matches!(events[0], LogEvent::EmptyPayload { publish_path: true }));
}

#[test]
fn two_failures_then_success_persists_exactly_once() {
    let rec = publish_record(valid_publish_payload(b"x", b""));
    let mut store = StoreLog::new();
    let outcomes = vec![false, false, true];
    let events = process_publish_record(&rec, &outcomes, &mut store);
    assert_eq!(store.rows.len(), 1);
    assert_eq!(events.len(), 3);
    assert!(matches!(events[0], LogEvent::StoreAttemptFailed { attempt: 1 }));
    assert!(matches!(events[1], LogEvent::StoreAttemptFailed { attempt: 2 }));
    assert!(matches!(events[2], LogEvent::StoreCommitted));
}

#[test]
fn three_failures_drop_the_record_and_the_loop_goes_on() {
    let rec = publish_record(valid_publish_payload(b"x", b""));
    let mut store = StoreLog::new();
    let outcomes = vec![false, false, false];
    let events = process_publish_record(&rec, &outcomes, &mut store);
    // No row, one terminal failure after exactly three attempts.
    assert_eq!(store.rows.len(), 0);
    assert_eq!(events.len(), 4);
    assert!(matches!(events[0], LogEvent::StoreAttemptFailed { attempt: 1 }));
    assert!(matches!(events[1], LogEvent::StoreAttemptFailed { attempt: 2 }));
    assert!(matches!(events[2], LogEvent::StoreAttemptFailed { attempt: 3 }));
    assert!(matches!(events[3], LogEvent::StoreAbandoned));
    // The worker is not poisoned: the next record processes normally.
    let rec2 = publish_record(valid_publish_payload(b"y", b""));
    let outcomes2 = vec![true, true, true];
    let events2 = process_publish_record(&rec2, &outcomes2, &mut store);
    assert_eq!(store.rows.len(), 1);
    assert!(matches!(events2[0], LogEvent::StoreCommitted));
}

#[test]
fn persistence_never_exceeds_three_attempts() {
    // However long the outcome tape, only the first three entries matter.
    let rec = publish_record(valid_publish_payload(b"x", b""));
    let mut store = StoreLog::new();
    let outcomes = vec![false, false, false, true, true];
    let events = process_publish_record(&rec, &outcomes, &mut store);
    assert_eq!(store.rows.len(), 0);
    let attempts = events
        .iter()
        .filter(|ev| matches!(ev, LogEvent::StoreAttemptFailed { .. }))
        .count();
    assert_eq!(attempts, 3);
}

#[test]
fn failed_default_persistence_skips_classification() {
    let rec = default_record(br#"{"name":"Ada","timestamp":"t"}"#);
    let mut store = StoreLog::new();
    let outcomes = vec![false, false, false];
    let events = process_default_record(&rec, &outcomes, &mut store);
    assert_eq!(store.rows.len(), 0);
    assert_eq!(events.len(), 4);
    assert!(matches!(events[3], LogEvent::StoreAbandoned));
}
