use xcdp_core::messages::{Payload, XCDPSendMessage, XCDPSendMessageSolidity, XTalkMessageInitiated};
use xcdp_core::store::EventStore;
use xcdp_core::XCDPCore;

#[test]
fn to_key_joins_with_dash() {
    let key = XCDPCore::to_key("tx-1".to_string(), "0xabc".to_string());
    assert_eq!(key, "tx-1-0xabc");
}

#[test]
fn solidity_shape_converts_losslessly() {
    let sol = XCDPSendMessageSolidity { message: "hello".to_string() };
    let stored = XCDPSendMessage::from(sol);
    assert_eq!(stored.message, "hello");
}

#[test]
fn store_keeps_every_inserted_entry() {
    let mut store = EventStore::new();
    assert_eq!(store.len(), 0);
    assert!(!store.contains(&"k1".to_string()));
    store.insert("k1".to_string(), XCDPSendMessage { message: "a".to_string() });
    store.insert("k2".to_string(), XCDPSendMessage { message: "b".to_string() });
    assert_eq!(store.len(), 2);
    assert!(store.contains(&"k1".to_string()));
    assert!(store.contains(&"k2".to_string()));
    assert!(!store.contains(&"k3".to_string()));
    assert_eq!(store.get(&"k1".to_string()).unwrap().message, "a");
    assert_eq!(store.get(&"k2".to_string()).unwrap().message, "b");
    assert!(store.get(&"k3".to_string()).is_none());
    assert!(!store.has_duplicate_key());
}

#[test]
fn store_reports_duplicate_keys() {
    let mut store = EventStore::new();
    store.insert("k".to_string(), XCDPSendMessage { message: "a".to_string() });
    store.insert("k".to_string(), XCDPSendMessage { message: "b".to_string() });
    assert!(store.has_duplicate_key());
}

#[test]
fn fresh_aggregate_is_empty() {
    let core = XCDPCore::new();
    assert_eq!(core.total_events, 0);
    assert_eq!(core.events.len(), 0);
}

#[test]
fn save_message_event_appends_and_counts() {
    let mut core = XCDPCore::new();
    core.save_message_event(
        "tx-1".to_string(),
        "0xabc".to_string(),
        XCDPSendMessage { message: "hello".to_string() },
        "destination_network_placeholder".to_string(),
        [0u8; 32],
    );
    assert_eq!(core.total_events, 1);
    assert_eq!(core.events.get(&"tx-1-0xabc".to_string()).unwrap().message, "hello");
}

#[test]
fn carrier_shapes_hold_their_fields() {
    let initiated = XTalkMessageInitiated {
        message: vec![1, 2, 3],
        destination_network: "net".to_string(),
        destination_smart_contract_address: [7u8; 32],
    };
    assert_eq!(initiated.message, vec![1, 2, 3]);
    assert_eq!(initiated.destination_smart_contract_address[0], 7);
    let payload = Payload {
        data: vec![9],
        destination_network: "net".to_string(),
        destination_contract_address: [0u8; 32],
    };
    assert_eq!(payload.data, vec![9]);
    assert_eq!(payload.destination_network, "net");
}
