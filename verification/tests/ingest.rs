use ethers::types::H256;
use xcdp_core::errors::{DecodeError, EventError, ValidationError};
use xcdp_core::XCDPCore;

fn hex_of(bytes: &[u8]) -> String {
    let mut s = String::new();
    for b in bytes {
        s.push_str(&format!("{:02x}", b));
    }
    s
}

/// A raw event record as the host would hand it over: base64 text of a
/// JSON log whose data field ABI-encodes one string parameter.
fn raw_event(topic: H256, message: &str) -> Vec<u8> {
    let data = ethers::abi::encode(&[ethers::abi::Token::String(message.to_string())]);
    let json = format!(
        "{{\"address\":\"0x0000000000000000000000000000000000000000\",\"topics\":[\"{:?}\"],\"data\":\"0x{}\"}}",
        topic,
        hex_of(&data)
    );
    base64::encode(json.as_bytes()).into_bytes()
}

#[test]
fn ingest_records_message() {
    let topic = H256::from_low_u64_be(0xabc);
    let mut core = XCDPCore::new();
    let r = core.save_event_data(raw_event(topic, "hello"), "tx-1".to_string());
    assert_eq!(r, Ok(()));
    assert_eq!(core.total_events, 1);
    assert_eq!(core.events.len(), 1);
    let key = format!("tx-1-{}", topic);
    let stored = core.events.get(&key).expect("entry under the composite key");
    assert_eq!(stored.message, "hello");
}

#[test]
fn ingest_duplicate_rejected() {
    let topic = H256::from_low_u64_be(0xabc);
    let mut core = XCDPCore::new();
    let first = core.save_event_data(raw_event(topic, "hello"), "tx-1".to_string());
    assert_eq!(first, Ok(()));
    let again = core.save_event_data(raw_event(topic, "hello"), "tx-1".to_string());
    assert_eq!(
        again,
        Err(EventError::Validation(ValidationError::DuplicateKey))
    );
    assert_eq!(core.total_events, 1);
    assert_eq!(core.events.len(), 1);
    let key = format!("tx-1-{}", topic);
    assert_eq!(core.events.get(&key).unwrap().message, "hello");
}

#[test]
fn ingest_counts_distinct_events() {
    let topic = H256::from_low_u64_be(0xabc);
    let mut core = XCDPCore::new();
    assert_eq!(core.save_event_data(raw_event(topic, "one"), "tx-1".to_string()), Ok(()));
    assert_eq!(core.save_event_data(raw_event(topic, "two"), "tx-2".to_string()), Ok(()));
    assert_eq!(core.save_event_data(raw_event(topic, "three"), "tx-3".to_string()), Ok(()));
    assert_eq!(core.total_events, 3);
    assert_eq!(core.events.len(), 3);
}

#[test]
fn ingest_rejects_empty_correlation_id() {
    let topic = H256::from_low_u64_be(0xabc);
    let mut core = XCDPCore::new();
    let r = core.save_event_data(raw_event(topic, "hello"), String::new());
    assert_eq!(
        r,
        Err(EventError::Validation(ValidationError::EmptyCorrelationId))
    );
    assert_eq!(core.total_events, 0);
    assert_eq!(core.events.len(), 0);
}

#[test]
fn ingest_rejects_empty_event_data() {
    let mut core = XCDPCore::new();
    let r = core.save_event_data(Vec::new(), "tx-1".to_string());
    assert_eq!(
        r,
        Err(EventError::Validation(ValidationError::EmptyEventData))
    );
    assert_eq!(core.total_events, 0);
    assert_eq!(core.events.len(), 0);
}

#[test]
fn ingest_rejects_bad_base64() {
    let mut core = XCDPCore::new();
    let r = core.save_event_data(b"!!!not base64!!!".to_vec(), "tx-1".to_string());
    assert_eq!(r, Err(EventError::Decode(DecodeError::InvalidEncoding)));
    assert_eq!(core.total_events, 0);
    assert_eq!(core.events.len(), 0);
}

#[test]
fn ingest_rejects_malformed_envelope() {
    let mut core = XCDPCore::new();
    let raw = base64::encode(b"{\"no_topics_here\":true}").into_bytes();
    let r = core.save_event_data(raw, "tx-1".to_string());
    assert_eq!(r, Err(EventError::Decode(DecodeError::MalformedEnvelope)));
    assert_eq!(core.total_events, 0);
    assert_eq!(core.events.len(), 0);
}

#[test]
fn ingest_rejects_missing_topic() {
    let mut core = XCDPCore::new();
    let json = "{\"address\":\"0x0000000000000000000000000000000000000000\",\"topics\":[],\"data\":\"0x\"}";
    let raw = base64::encode(json.as_bytes()).into_bytes();
    let r = core.save_event_data(raw, "tx-1".to_string());
    assert_eq!(r, Err(EventError::Decode(DecodeError::MissingTopic)));
    assert_eq!(core.total_events, 0);
    assert_eq!(core.events.len(), 0);
}

#[test]
fn ingest_rejects_short_abi_data() {
    let topic = H256::from_low_u64_be(0xabc);
    let mut core = XCDPCore::new();
    let json = format!(
        "{{\"address\":\"0x0000000000000000000000000000000000000000\",\"topics\":[\"{:?}\"],\"data\":\"0x1234\"}}",
        topic
    );
    let raw = base64::encode(json.as_bytes()).into_bytes();
    let r = core.save_event_data(raw, "tx-1".to_string());
    assert_eq!(r, Err(EventError::Decode(DecodeError::SchemaMismatch)));
    assert_eq!(core.total_events, 0);
    assert_eq!(core.events.len(), 0);
}

#[test]
fn ingest_handles_unicode_payload() {
    let topic = H256::from_low_u64_be(0xf00);
    let mut core = XCDPCore::new();
    let r = core.save_event_data(raw_event(topic, "h\u{e9}llo \u{2713}"), "tx-9".to_string());
    assert_eq!(r, Ok(()));
    let key = format!("tx-9-{}", topic);
    assert_eq!(core.events.get(&key).unwrap().message, "h\u{e9}llo \u{2713}");
}
