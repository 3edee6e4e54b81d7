use ethers::types::H256;
use xcdp_core::errors::StateError;
use xcdp_core::messages::XCDPSendMessage;
use xcdp_core::XCDPCore;

fn hex_of(bytes: &[u8]) -> String {
    let mut s = String::new();
    for b in bytes {
        s.push_str(&format!("{:02x}", b));
    }
    s
}

fn raw_event(topic: H256, message: &str) -> Vec<u8> {
    let data = ethers::abi::encode(&[ethers::abi::Token::String(message.to_string())]);
    let json = format!(
        "{{\"address\":\"0x0000000000000000000000000000000000000000\",\"topics\":[\"{:?}\"],\"data\":\"0x{}\"}}",
        topic,
        hex_of(&data)
    );
    base64::encode(json.as_bytes()).into_bytes()
}

#[test]
fn save_load_roundtrip_empty() {
    let core = XCDPCore::new();
    let bytes = core.save();
    let loaded = XCDPCore::load(Some(&bytes)).expect("fresh image loads");
    assert_eq!(loaded, core);
}

#[test]
fn save_load_roundtrip_populated() {
    let mut core = XCDPCore::new();
    let t1 = H256::from_low_u64_be(0xabc);
    let t2 = H256::from_low_u64_be(0xdef);
    core.save_event_data(raw_event(t1, "hello"), "tx-1".to_string()).unwrap();
    core.save_event_data(raw_event(t2, "w\u{f6}rld \u{2713}"), "tx-2".to_string()).unwrap();
    let bytes = core.save();
    let loaded = XCDPCore::load(Some(&bytes)).expect("saved image loads");
    assert_eq!(loaded, core);
    assert_eq!(loaded.total_events, 2);
    let key = format!("tx-2-{}", t2);
    assert_eq!(loaded.events.get(&key).unwrap().message, "w\u{f6}rld \u{2713}");
}

#[test]
fn load_absent_slot_is_not_initialized() {
    let r = XCDPCore::load(None);
    assert_eq!(r, Err(StateError::NotInitialized));
}

#[test]
fn load_truncated_image_is_corrupt() {
    let r = XCDPCore::load(Some(&vec![1u8, 2, 3]));
    assert_eq!(r, Err(StateError::CorruptState));
}

#[test]
fn load_image_with_leftover_bytes_is_corrupt() {
    let core = XCDPCore::new();
    let mut bytes = core.save();
    bytes.push(0);
    let r = XCDPCore::load(Some(&bytes));
    assert_eq!(r, Err(StateError::CorruptState));
}

#[test]
fn load_image_with_duplicate_keys_is_corrupt() {
    let mut core = XCDPCore::new();
    core.save_message_event(
        "tx-1".to_string(),
        "ev".to_string(),
        XCDPSendMessage { message: "a".to_string() },
        "net".to_string(),
        [0u8; 32],
    );
    core.save_message_event(
        "tx-1".to_string(),
        "ev".to_string(),
        XCDPSendMessage { message: "b".to_string() },
        "net".to_string(),
        [0u8; 32],
    );
    let bytes = core.save();
    let r = XCDPCore::load(Some(&bytes));
    assert_eq!(r, Err(StateError::CorruptState));
}

#[test]
fn load_non_utf8_text_is_corrupt() {
    // count = 1 entry, then a key whose length prefix says 2 bytes but
    // whose bytes are not UTF-8.
    let mut bytes = Vec::new();
    bytes.extend_from_slice(&1u64.to_le_bytes());
    bytes.extend_from_slice(&2u64.to_le_bytes());
    bytes.extend_from_slice(&[0xff, 0xfe]);
    let r = XCDPCore::load(Some(&bytes));
    assert_eq!(r, Err(StateError::CorruptState));
}
